use indexmap::IndexMap;
use seashell::config::{Config, Scope, ScopedServer, ServerEntry};
use seashell::connect::connection_for;
use seashell::context::Context;
use seashell::data::{EngineDefaults, Environment, ServerUri};
use seashell::error::{CliError, ConnectionError, Failure};

fn env() -> Environment {
    Environment {
        user: Some("me".into()),
        home_dir: "/home/me".into(),
        work_dir: "/home/me/.seashell".into(),
    }
}

fn engine() -> EngineDefaults {
    EngineDefaults {
        kex: vec!["kex".into()],
        alg: vec!["alg".into()],
        cipher: vec!["cipher".into()],
        mac: vec!["mac".into()],
        retries: 3,
    }
}

fn lab() -> Config {
    let mut cfg = Config::default();
    cfg.default = Some(Scope {
        user: Some("dave".into()),
        interval: Some(15),
        ..Scope::default()
    });
    cfg.scopes.insert(
        "lab".into(),
        Scope {
            user: Some("carol".into()),
            port: Some(2200),
            ..Scope::default()
        },
    );
    let mut list = IndexMap::new();
    list.insert(r"vm-\d+".to_string(), ScopedServer::Address("$h.internal".into()));
    cfg.servers.insert("lab".into(), ServerEntry::Scope(list));
    cfg
}

#[test]
fn reference_without_configuration() {
    let uri: ServerUri = "user@host:2222".parse().unwrap();
    let data =
        connection_for(uri, Scope::default(), Config::default(), "", &env(), &engine()).unwrap();
    assert_eq!(data.address, "host");
    assert_eq!(data.user, "user");
    assert_eq!(data.port, 2222);
    assert_eq!(data.known_hosts, "/home/me/.seashell/known_hosts");
    assert_eq!(data.private_key, None);
    assert_eq!(data.openssh_cert, None);
    assert_eq!(data.kex, vec!["kex"]);
    assert_eq!(data.alg, vec!["alg"]);
    assert_eq!(data.cipher, vec!["cipher"]);
    assert_eq!(data.mac, vec!["mac"]);
    assert_eq!(data.timeout, None);
    assert_eq!(data.interval, None);
    assert_eq!(data.retries, 3);
}

#[test]
fn reference_to_a_configured_server() {
    let flags = Scope {
        timeout: Some(5),
        ..Scope::default()
    };
    let data =
        connection_for(ServerUri::parse("vm-9"), flags, lab(), "lab", &env(), &engine()).unwrap();
    assert_eq!(data.address, "vm-9.internal");
    assert_eq!(data.user, "carol");
    assert_eq!(data.port, 2200);
    assert_eq!(data.timeout, Some(5));
    assert_eq!(data.interval, Some(15));
    // what is typed stands before what is configured
    let data = connection_for(
        ServerUri::parse("alice@vm-9:1"),
        Scope::default(),
        lab(),
        "lab",
        &env(),
        &engine(),
    )
    .unwrap();
    assert_eq!(data.address, "vm-9.internal");
    assert_eq!(data.user, "alice");
    assert_eq!(data.port, 1);
    // outside the scope the host is not configured: the defaults still hold
    let data = connection_for(
        ServerUri::parse("vm-9"),
        Scope::default(),
        lab(),
        "",
        &env(),
        &engine(),
    )
    .unwrap();
    assert_eq!(data.address, "vm-9");
    assert_eq!(data.user, "dave");
    assert_eq!(data.port, 22);
}

#[test]
fn failures_of_the_preparation() {
    let mut cfg = Config::default();
    cfg.servers.insert("(".into(), ServerEntry::Global(ScopedServer::Address("a".into())));
    assert!(matches!(
        connection_for(ServerUri::parse("h"), Scope::default(), cfg, "", &env(), &engine()),
        Err(Failure::Connection(ConnectionError::Regex(_)))
    ));
    let mut cfg = lab();
    cfg.scopes.swap_remove("lab");
    match connection_for(ServerUri::parse("vm-1"), Scope::default(), cfg, "lab", &env(), &engine()) {
        Err(Failure::Cli(CliError::ScopeNotFound(name))) => assert_eq!(name, "lab"),
        _ => panic!("a server of an unknown scope was resolved"),
    }
    let nobody = Environment {
        user: None,
        ..env()
    };
    assert!(matches!(
        connection_for(
            ServerUri::parse("h"),
            Scope::default(),
            Config::default(),
            "",
            &nobody,
            &engine()
        ),
        Err(Failure::Connection(ConnectionError::UserRequired))
    ));
    let flags = Scope {
        known_hosts: Some("hosts".into()),
        ..Scope::default()
    };
    match connection_for(ServerUri::parse("h"), flags, Config::default(), "", &env(), &engine()) {
        Err(Failure::Connection(ConnectionError::RelativePath(path))) => assert_eq!(path, "hosts"),
        _ => panic!("a relative path was accepted"),
    }
}

#[test]
fn select_scope() {
    let cfg = lab();
    let context = cfg.select_scope(Context::default(), "lab".into()).unwrap();
    assert_eq!(context.scope(), "lab");
    match cfg.select_scope(context, "prod".into()) {
        Err(CliError::ScopeNotFound(name)) => assert_eq!(name, "prod"),
        _ => panic!("a scope that is not there was selected"),
    }
}
