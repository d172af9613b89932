use indexmap::IndexMap;
use seashell::config::{
    empty_scope_is_none, Config, Scope, ScopedServer, Server, ServerEntry,
};
use seashell::context::Context;
use seashell::data::ServerUri;
use seashell::error::CliError;
use seashell::output::LsResult;

// Config
#[test]
fn check_scope() {
    let mut cfg = Config::default();
    cfg.scopes.insert("test".into(), Scope::default());
    assert!(cfg.check_scope("test"));
    assert!(!cfg.check_scope("other"));
}

#[test]
fn list_flags() {
    let mut cfg = Config::default();
    let res = cfg.list("".into(), true, false);
    assert!(matches!(res, Ok(LsResult::All(_))));
    let res = cfg.list("".into(), false, true);
    assert!(matches!(res, Ok(LsResult::AllScopes(_, _))));
    let res = cfg.list("".into(), true, true);
    assert!(matches!(res, Ok(LsResult::All(_))));
    let res = cfg.list("".into(), false, false);
    assert!(matches!(res, Ok(LsResult::All(_))));
}

#[test]
fn list_content() {
    let mut cfg = Config::default();
    let (host1, host2) = (String::from("host1"), String::from("host2"));
    let (scope1, scope2) = (String::from("scope1"), String::from("scope2"));
    // All
    cfg.servers.insert(host1.clone(), ServerEntry::default());
    cfg.servers.insert(host2.clone(), ServerEntry::default());

    let res = cfg.list("".into(), true, false);
    assert!(matches!(res, Ok(LsResult::All(_))));
    if let Ok(LsResult::All(servers)) = res {
        assert_eq!(servers.len(), 2);
        assert!(servers.contains_key(&host1));
        assert!(servers.contains_key(&host2));
    }
    // All scopes
    cfg.scopes.insert(scope1.clone(), Scope::default());
    cfg.scopes.insert(scope2.clone(), Scope::default());

    let res = cfg.list("".into(), false, true);
    assert!(matches!(res, Ok(LsResult::AllScopes(_, _))));
    if let Ok(LsResult::AllScopes(_, scopes)) = res {
        assert_eq!(scopes.len(), 2);
        assert!(scopes.contains_key(&scope1));
        assert!(scopes.contains_key(&scope2));
    }
    // Scope servers
    cfg.scopes.insert(scope1.clone(), Scope::default());
    let mut scoped_servers = IndexMap::new();
    scoped_servers.insert(host1.clone(), ScopedServer::default());
    cfg.servers
        .insert(scope1.clone(), ServerEntry::Scope(scoped_servers));

    let res = cfg.list(scope1, false, false);
    assert!(matches!(res, Ok(LsResult::Scope(_, _))));
    if let Ok(LsResult::Scope(_, servers)) = res {
        assert_eq!(servers.len(), 1);
        assert!(servers.contains_key(&host1));
    }
}

#[test]
fn add_scope() {
    let cfg = Config::default();
    let scope = String::from("scope");
    let cfg = cfg.add_scope(scope.clone(), Scope::default());
    if let Ok(cfg) = cfg {
        assert!(cfg.scopes.contains_key(&scope));
        let cfg = cfg.add_scope(scope, Scope::default());
        assert!(cfg.is_err());
    } else {
        panic!("Failed to add scope");
    }
}

// Server
#[test]
fn from_server_uri() {
    let mut uri = ServerUri {
        address: "host".into(),
        user: Some(String::default()),
        port: Some(22),
    };
    let srv = Server::from_uri_address(&mut uri);
    assert!(uri.address.is_empty() && !srv.address.is_empty());
    assert!(uri.user.is_some() && srv.scope.user.is_none());
    assert!(uri.port.is_some() && srv.scope.port.is_none());
}

#[test]
fn server_is_only_address() {
    let srv = Server::new("host".into());
    assert!(srv.is_only_address());
}

#[test]
fn server_apply_host_placeholder() {
    let mut srv = Server::new("$h.local".into());
    srv.apply_host_placeholder("vm-01");
    assert_eq!(srv.address, "vm-01.local");
}

fn scope_of(user: &str, port: u16) -> Scope {
    Scope {
        user: Some(user.into()),
        port: Some(port),
        ..Scope::default()
    }
}

fn names(map: &IndexMap<String, ServerEntry>) -> Vec<String> {
    map.keys().cloned().collect()
}

#[test]
fn placeholder_is_replaced_everywhere() {
    let mut srv = Server::new("$h.$h.$x$".into());
    srv.apply_host_placeholder("a");
    assert_eq!(srv.address, "a.a.$x$");
    let mut srv = Server::new("$$h$".into());
    srv.apply_host_placeholder("host");
    assert_eq!(srv.address, "$host$");
    let mut srv = Server::new("plain".into());
    srv.apply_host_placeholder("host");
    assert_eq!(srv.address, "plain");
    let mut srv = Server::new("$h".into());
    srv.apply_host_placeholder("$h");
    assert_eq!(srv.address, "$h");
    let mut srv = Server::new("".into());
    srv.apply_host_placeholder("host");
    assert_eq!(srv.address, "");
}

#[test]
fn merge_prefers_the_specific_scope() {
    let mut specific = Scope {
        user: Some("alice".into()),
        kex: Some(vec!["curve25519-sha256".into()]),
        timeout: Some(5),
        ..Scope::default()
    };
    let general = Scope {
        user: Some("bob".into()),
        port: Some(2200),
        private_key: Some("~/.ssh/id".into()),
        kex: Some(vec![]),
        mac: Some(vec!["hmac-sha2-256".into()]),
        timeout: Some(9),
        retries: Some(4),
        ..Scope::default()
    };
    specific.merge(general);
    assert_eq!(specific.user.as_deref(), Some("alice"));
    assert_eq!(specific.port, Some(2200));
    assert_eq!(specific.known_hosts, None);
    assert_eq!(specific.private_key.as_deref(), Some("~/.ssh/id"));
    assert_eq!(specific.openssh_cert, None);
    assert_eq!(specific.kex, Some(vec![String::from("curve25519-sha256")]));
    assert_eq!(specific.alg, None);
    assert_eq!(specific.cipher, None);
    assert_eq!(specific.mac, Some(vec![String::from("hmac-sha2-256")]));
    assert_eq!(specific.timeout, Some(5));
    assert_eq!(specific.interval, None);
    assert_eq!(specific.retries, Some(4));
}

#[test]
fn merge_with_an_empty_scope_changes_nothing() {
    let mut scope = scope_of("alice", 22);
    scope.merge(Scope::default());
    assert!(scope == scope_of("alice", 22));
    let mut empty = Scope::default();
    empty.merge(scope_of("alice", 22));
    assert!(empty == scope_of("alice", 22));
    let mut summed = Scope::default();
    summed += scope_of("bob", 1);
    assert!(summed == scope_of("bob", 1));
}

#[test]
fn scope_equality_goes_by_the_fields() {
    assert!(Scope::default() == Scope::default());
    assert!(Scope::default().is_empty());
    assert!(!scope_of("a", 1).is_empty());
    assert!(scope_of("a", 1) != scope_of("a", 2));
    assert!(scope_of("a", 1) != scope_of("b", 1));
    let listed = Scope {
        cipher: Some(vec![]),
        ..Scope::default()
    };
    assert!(!listed.is_empty());
    assert!(listed != Scope::default());
    assert!(listed.clone() == listed);
}

#[test]
fn apply_scope_fills_what_the_server_leaves_open() {
    let mut server = Server::new("host".into());
    server.scope.port = Some(1);
    server.apply_scope(scope_of("carol", 2));
    assert_eq!(server.address, "host");
    assert_eq!(server.scope.user.as_deref(), Some("carol"));
    assert_eq!(server.scope.port, Some(1));
    assert!(!server.is_only_address());
}

#[test]
fn scoped_server_keeps_an_address_alone_where_it_can() {
    let bare = ScopedServer::from_server(Server::new("host".into()));
    assert!(matches!(&bare, ScopedServer::Address(a) if a == "host"));
    let server = bare.into_server();
    assert_eq!(server.address, "host");
    assert!(server.is_only_address());
    let mut full = Server::new("host".into());
    full.scope.port = Some(7);
    let entry = ScopedServer::from_server(full);
    assert!(matches!(&entry, ScopedServer::Override(_)));
    let copy = entry.clone().into_server();
    assert_eq!(copy.scope.port, Some(7));
    assert!(matches!(
        ServerEntry::default(),
        ServerEntry::Global(ScopedServer::Address(a)) if a.is_empty()
    ));
}

#[test]
fn add_scope_keeps_the_order_and_reports_the_name() {
    let cfg = Config::default()
        .add_scope("b".into(), scope_of("u", 1))
        .unwrap()
        .add_scope("a".into(), Scope::default())
        .unwrap();
    let keys: Vec<&String> = cfg.scopes.keys().collect();
    assert_eq!(keys, vec!["b", "a"]);
    assert_eq!(cfg.scopes["b"].port, Some(1));
    match cfg.add_scope("a".into(), Scope::default()) {
        Err(CliError::ScopeExists(name)) => assert_eq!(name, "a"),
        _ => panic!("a second scope of one name was accepted"),
    }
}

#[test]
fn set_default_replaces_the_defaults() {
    let cfg = Config::default().set_default(scope_of("root", 22)).unwrap();
    assert!(cfg.default == Some(scope_of("root", 22)));
    let cfg = cfg.set_default(Scope::default()).unwrap();
    assert!(cfg.default == Some(Scope::default()));
    assert!(cfg.scopes.is_empty() && cfg.servers.is_empty());
}

#[test]
fn add_server_global() {
    let cfg = Config::default()
        .add_server("web".into(), Server::new("10.0.0.1".into()), true, "")
        .unwrap();
    assert!(matches!(
        cfg.servers.get("web"),
        Some(ServerEntry::Global(ScopedServer::Address(a))) if a == "10.0.0.1"
    ));
    // no scope is active: the server is a global one too
    let mut full = Server::new("10.0.0.2".into());
    full.scope.user = Some("deploy".into());
    let cfg = cfg.add_server("db".into(), full, false, "").unwrap();
    assert!(matches!(
        cfg.servers.get("db"),
        Some(ServerEntry::Global(ScopedServer::Override(s))) if s.scope.user.as_deref() == Some("deploy")
    ));
    assert_eq!(names(&cfg.servers), vec!["web", "db"]);
    match cfg.add_server("web".into(), Server::new("x".into()), true, "prod") {
        Err(CliError::ServerExists(name)) => assert_eq!(name, "web"),
        _ => panic!("a second server of one name was accepted"),
    }
}

#[test]
fn add_server_scoped() {
    let cfg = Config::default()
        .add_scope("prod".into(), Scope::default())
        .unwrap()
        .add_server("web".into(), Server::new("10.0.0.1".into()), false, "prod")
        .unwrap()
        .add_server("db".into(), Server::new("10.0.0.2".into()), false, "prod")
        .unwrap();
    assert_eq!(names(&cfg.servers), vec!["prod"]);
    match cfg.servers.get("prod") {
        Some(ServerEntry::Scope(list)) => {
            let keys: Vec<&String> = list.keys().collect();
            assert_eq!(keys, vec!["web", "db"]);
            assert!(matches!(list.get("db"), Some(ScopedServer::Address(a)) if a == "10.0.0.2"));
        }
        _ => panic!("the scope lists no servers"),
    }
    match cfg.add_server("web".into(), Server::new("x".into()), false, "prod") {
        Err(CliError::ServerExists(name)) => assert_eq!(name, "web"),
        _ => panic!("a second server of one name was accepted"),
    }
}

#[test]
fn add_server_errors() {
    let cfg = Config::default()
        .add_scope("prod".into(), Scope::default())
        .unwrap()
        .add_server("web".into(), Server::new("a".into()), false, "prod")
        .unwrap();
    // a global server may not take the name under which a scope lists its servers
    match cfg.add_server("prod".into(), Server::new("x".into()), true, "") {
        Err(CliError::ScopeExists(name)) => assert_eq!(name, "prod"),
        _ => panic!("a global server took the name of a scope"),
    }
    match Config::default().add_server("web".into(), Server::new("x".into()), false, "staging") {
        Err(CliError::ScopeNotFound(name)) => assert_eq!(name, "staging"),
        _ => panic!("a server was added to a scope that is not there"),
    }
}

#[test]
fn remove_scope_and_its_servers() {
    let cfg = Config::default()
        .add_scope("a".into(), Scope::default())
        .unwrap()
        .add_scope("b".into(), Scope::default())
        .unwrap()
        .add_scope("c".into(), Scope::default())
        .unwrap()
        .add_server("web".into(), Server::new("x".into()), false, "a")
        .unwrap()
        .add_server("solo".into(), Server::new("y".into()), true, "")
        .unwrap();
    let active = Context::default().change_scope(Some("a".into()));
    let (cfg, after) = cfg.remove(None, Some("a".into()), active).unwrap();
    // the last scope has moved to the place of the one that left
    let keys: Vec<&String> = cfg.scopes.keys().collect();
    assert_eq!(keys, vec!["c", "b"]);
    assert_eq!(names(&cfg.servers), vec!["solo"]);
    assert_eq!(after.scope(), "");
    let other = Context::default().change_scope(Some("b".into()));
    let (cfg, after) = cfg.remove(None, Some("c".into()), other).unwrap();
    assert_eq!(after.scope(), "b");
    match cfg.remove(None, Some("zzz".into()), Context::default()) {
        Err(CliError::ScopeNotFound(name)) => assert_eq!(name, "zzz"),
        _ => panic!("a scope that is not there was removed"),
    }
}

#[test]
fn remove_server() {
    let cfg = Config::default()
        .add_scope("prod".into(), Scope::default())
        .unwrap()
        .add_server("web".into(), Server::new("x".into()), false, "prod")
        .unwrap()
        .add_server("db".into(), Server::new("y".into()), false, "prod")
        .unwrap()
        .add_server("solo".into(), Server::new("z".into()), true, "")
        .unwrap();
    let prod = || Context::default().change_scope(Some("prod".into()));
    let (cfg, _) = cfg.remove(Some("web".into()), None, prod()).unwrap();
    match cfg.servers.get("prod") {
        Some(ServerEntry::Scope(list)) => {
            assert_eq!(list.len(), 1);
            assert!(list.contains_key("db"));
        }
        _ => panic!("the scope lists no servers"),
    }
    let cfg = match cfg.remove(Some("web".into()), None, prod()) {
        Err(CliError::ServerNotFound(name)) => {
            assert_eq!(name, "web");
            return;
        }
        Ok((cfg, _)) => cfg,
        Err(_) => panic!("another error"),
    };
    drop(cfg);
    panic!("a server that is not there was removed");
}

#[test]
fn remove_last_server_of_a_scope_and_global_server() {
    let cfg = Config::default()
        .add_scope("prod".into(), Scope::default())
        .unwrap()
        .add_server("web".into(), Server::new("x".into()), false, "prod")
        .unwrap()
        .add_server("solo".into(), Server::new("z".into()), true, "")
        .unwrap();
    let prod = Context::default().change_scope(Some("prod".into()));
    let (cfg, after) = cfg.remove(Some("web".into()), None, prod).unwrap();
    assert_eq!(after.scope(), "prod");
    assert_eq!(names(&cfg.servers), vec!["solo"]);
    assert!(cfg.scopes.contains_key("prod"));
    let (cfg, _) = cfg.remove(Some("solo".into()), None, Context::default()).unwrap();
    assert!(cfg.servers.is_empty());
    assert!(matches!(
        cfg.remove(Some("solo".into()), None, Context::default()),
        Err(CliError::ServerNotFound(_))
    ));
    // the active scope lists nothing
    let prod = Context::default().change_scope(Some("prod".into()));
    assert!(matches!(
        Config::default().remove(Some("x".into()), None, prod),
        Err(CliError::ServerNotFound(_))
    ));
}

fn unsorted() -> Config {
    let mut cfg = Config::default();
    let mut inner = IndexMap::new();
    inner.insert("zeta".to_string(), ScopedServer::Address("z".into()));
    inner.insert("alpha".to_string(), ScopedServer::Address("a".into()));
    inner.insert("Mid".to_string(), ScopedServer::Address("m".into()));
    cfg.servers.insert("web".into(), ServerEntry::default());
    cfg.servers.insert("prod".into(), ServerEntry::Scope(inner));
    cfg.servers.insert("app".into(), ServerEntry::default());
    cfg.scopes.insert("prod".into(), Scope::default());
    cfg.scopes.insert("dev".into(), scope_of("me", 1));
    cfg
}

#[test]
fn list_all_sorts_names_at_both_levels() {
    let mut cfg = unsorted();
    cfg.default = Some(scope_of("root", 22));
    match cfg.list("nowhere".into(), false, false) {
        Ok(LsResult::All(servers)) => {
            assert_eq!(names(&servers), vec!["app", "prod", "web"]);
            match servers.get("prod") {
                Some(ServerEntry::Scope(list)) => {
                    let keys: Vec<&String> = list.keys().collect();
                    assert_eq!(keys, vec!["Mid", "alpha", "zeta"]);
                    assert!(matches!(list.get("alpha"), Some(ScopedServer::Address(a)) if a == "a"));
                }
                _ => panic!("the scope lists no servers"),
            }
        }
        _ => panic!("not a listing of everything"),
    }
    assert!(cfg.servers.is_empty());
    assert_eq!(cfg.scopes.len(), 2);
    assert!(cfg.default.is_some());
}

#[test]
fn list_scopes_sorts_and_takes_the_defaults() {
    let mut cfg = unsorted();
    cfg.default = Some(scope_of("root", 22));
    match cfg.list("prod".into(), false, true) {
        Ok(LsResult::AllScopes(default, scopes)) => {
            assert!(default == Some(scope_of("root", 22)));
            let keys: Vec<&String> = scopes.keys().collect();
            assert_eq!(keys, vec!["dev", "prod"]);
            assert_eq!(scopes["dev"].port, Some(1));
        }
        _ => panic!("not a listing of the scopes"),
    }
    assert!(cfg.scopes.is_empty());
    assert!(cfg.default.is_none());
    assert_eq!(cfg.servers.len(), 3);
}

#[test]
fn list_active_scope_sorts_its_servers() {
    let mut cfg = unsorted();
    match cfg.list("prod".into(), false, false) {
        Ok(LsResult::Scope(name, servers)) => {
            assert_eq!(name, "prod");
            let keys: Vec<&String> = servers.keys().collect();
            assert_eq!(keys, vec!["Mid", "alpha", "zeta"]);
        }
        _ => panic!("not a listing of one scope"),
    }
    assert_eq!(names(&cfg.servers), vec!["web", "prod", "app"]);
    assert!(matches!(cfg.servers.get("prod"), Some(ServerEntry::Scope(list)) if list.is_empty()));
    // a scope without servers
    match cfg.list("dev".into(), false, false) {
        Ok(LsResult::Scope(name, servers)) => {
            assert_eq!(name, "dev");
            assert!(servers.is_empty());
        }
        _ => panic!("not a listing of one scope"),
    }
}

#[test]
fn sort_servers_in_place() {
    let mut cfg = unsorted();
    cfg.sort_servers();
    assert_eq!(names(&cfg.servers), vec!["app", "prod", "web"]);
    assert!(matches!(
        cfg.servers.get_index(1),
        Some((_, ServerEntry::Scope(list))) if list.get_index(0).map(|e| e.0.as_str()) == Some("Mid")
    ));
    assert_eq!(cfg.scopes.len(), 2);
}

#[test]
fn cli_error_messages() {
    assert_eq!(CliError::ServerNotFound("web".into()).message(), "Server 'web' not found");
    assert_eq!(CliError::ScopeNotFound("prod".into()).message(), "Scope 'prod' not found");
    assert_eq!(CliError::ServerExists("web".into()).message(), "Server 'web' already exists");
    assert_eq!(CliError::ScopeExists("".into()).message(), "Scope '' already exists");
    assert_eq!(CliError::ScopeExists("prod".into()).name(), "prod");
}

#[test]
fn empty_defaults_count_as_none() {
    assert!(empty_scope_is_none(None).is_none());
    assert!(empty_scope_is_none(Some(Scope::default())).is_none());
    let kept = empty_scope_is_none(Some(scope_of("root", 22)));
    assert!(kept == Some(scope_of("root", 22)));
    let listed = Scope {
        mac: Some(vec![]),
        ..Scope::default()
    };
    assert!(empty_scope_is_none(Some(listed.clone())) == Some(listed));
}

#[test]
fn server_from_scoped_server() {
    let server = Server::from(ScopedServer::Address("a".into()));
    assert_eq!(server.address, "a");
    assert!(server.scope == Scope::default());
    let mut full = Server::new("b".into());
    full.scope = scope_of("u", 9);
    let server: Server = ScopedServer::Override(Box::new(full)).into();
    assert_eq!(server.address, "b");
    assert!(server.scope == scope_of("u", 9));
    let copy = server.clone();
    assert_eq!(copy.address, "b");
    assert!(copy.scope == server.scope);
    let empty = Server::default();
    assert!(empty.address.is_empty() && empty.is_only_address());
}
