use seashell::config::{Scope, Server};
use seashell::data::{
    get_full_path, join_path, ConnectionData, EngineDefaults, Environment, ServerUri, DEFAULT_PORT,
};
use seashell::error::ConnectionError;
use seashell::text::{decimal_text, substitute};
use std::str::FromStr;

fn uri(input: &str) -> (String, Option<String>, Option<u16>) {
    let parsed = ServerUri::parse(input);
    (parsed.address, parsed.user, parsed.port)
}

fn env() -> Environment {
    Environment {
        user: Some("me".into()),
        home_dir: "/home/me".into(),
        work_dir: "/home/me/.seashell".into(),
    }
}

fn engine() -> EngineDefaults {
    EngineDefaults {
        kex: vec!["curve25519-sha256".into(), "diffie-hellman-group14-sha256".into()],
        alg: vec!["ssh-ed25519".into()],
        cipher: vec!["chacha20-poly1305@openssh.com".into()],
        mac: vec!["hmac-sha2-256".into()],
        retries: 3,
    }
}

fn user(name: &str) -> Scope {
    Scope {
        user: Some(name.into()),
        ..Scope::default()
    }
}

#[test]
fn uri_parts() {
    assert_eq!(uri("host"), ("host".into(), None, None));
    assert_eq!(uri("user@host"), ("host".into(), Some("user".into()), None));
    assert_eq!(uri("host:22"), ("host".into(), None, Some(22)));
    assert_eq!(uri("user@host:2222"), ("host".into(), Some("user".into()), Some(2222)));
    assert_eq!(uri(""), ("".into(), None, None));
    assert_eq!(uri("@"), ("".into(), Some("".into()), None));
    assert_eq!(uri("@host"), ("host".into(), Some("".into()), None));
}

#[test]
fn uri_splits_at_the_first_at_and_the_last_colon() {
    assert_eq!(uri("a@b@c:1"), ("b@c".into(), Some("a".into()), Some(1)));
    assert_eq!(uri("a:b@host"), ("host".into(), Some("a:b".into()), None));
    assert_eq!(uri("::1:22"), ("::1".into(), None, Some(22)));
    assert_eq!(uri("[::1]:22"), ("[::1]".into(), None, Some(22)));
    assert_eq!(uri("h:1:2"), ("h:1".into(), None, Some(2)));
}

#[test]
fn uri_port_must_be_a_port_number() {
    assert_eq!(uri("host:"), ("host:".into(), None, None));
    assert_eq!(uri("host:abc"), ("host:abc".into(), None, None));
    assert_eq!(uri("host:22a"), ("host:22a".into(), None, None));
    assert_eq!(uri("host:-1"), ("host:-1".into(), None, None));
    assert_eq!(uri("host: 22"), ("host: 22".into(), None, None));
    assert_eq!(uri("host:65535"), ("host".into(), None, Some(65535)));
    assert_eq!(uri("host:65536"), ("host:65536".into(), None, None));
    assert_eq!(uri("host:99999999999999999999"), ("host:99999999999999999999".into(), None, None));
    assert_eq!(uri("host:0"), ("host".into(), None, Some(0)));
    assert_eq!(uri("host:0022"), ("host".into(), None, Some(22)));
    assert_eq!(uri("host:+22"), ("host".into(), None, Some(22)));
    assert_eq!(uri("host:+"), ("host:+".into(), None, None));
    assert_eq!(uri("host:++2"), ("host:++2".into(), None, None));
    assert_eq!(uri("host:\u{0662}"), ("host:\u{0662}".into(), None, None));
}

#[test]
fn uri_agrees_with_the_number_parser_of_the_language() {
    for text in ["22", "+22", "", "+", "-0", "065535", "65536", "1e3", "٣", "0x10"] {
        let input = format!("h:{}", text);
        let wanted = text.parse::<u16>().ok();
        assert_eq!(ServerUri::parse(&input).port, wanted);
    }
}

#[test]
fn uri_from_str_and_clone() {
    let parsed = ServerUri::from_str("user@host:2222").unwrap();
    assert_eq!(parsed.address, "host");
    let parsed: ServerUri = "é@ü:7".parse().unwrap();
    let copy = parsed.clone();
    assert_eq!(copy.user.as_deref(), Some("é"));
    assert_eq!(copy.address, "ü");
    assert_eq!(copy.port, Some(7));
}

#[test]
fn uri_outranks_every_other_source() {
    let uri = ServerUri {
        address: "typed".into(),
        user: Some("alice".into()),
        port: Some(1),
    };
    let mut flags = user("bob");
    flags.port = Some(2);
    let mut server = Server::new("resolved".into());
    server.scope = user("carol");
    server.scope.port = Some(3);
    let mut default = user("dave");
    default.port = Some(4);
    let data = ConnectionData::new(uri, flags, server, default, &env(), &engine()).unwrap();
    assert_eq!(data.user, "alice");
    assert_eq!(data.port, 1);
    assert_eq!(data.address, "resolved");
}

#[test]
fn sources_rank_in_their_order() {
    let bare = || ServerUri {
        address: "h".into(),
        user: None,
        port: None,
    };
    let mut server = Server::new("h".into());
    server.scope = user("carol");
    let data =
        ConnectionData::new(bare(), user("bob"), server, user("dave"), &env(), &engine()).unwrap();
    assert_eq!(data.user, "bob");
    let mut server = Server::new("h".into());
    server.scope = user("carol");
    let data =
        ConnectionData::new(bare(), Scope::default(), server, user("dave"), &env(), &engine())
            .unwrap();
    assert_eq!(data.user, "carol");
    let data = ConnectionData::new(
        bare(),
        Scope::default(),
        Server::new("h".into()),
        user("dave"),
        &env(),
        &engine(),
    )
    .unwrap();
    assert_eq!(data.user, "dave");
    let data = ConnectionData::new(
        bare(),
        Scope::default(),
        Server::new("h".into()),
        Scope::default(),
        &env(),
        &engine(),
    )
    .unwrap();
    assert_eq!(data.user, "me");
}

#[test]
fn end_to_end_without_configuration() {
    let mut uri: ServerUri = "user@host:2222".parse().unwrap();
    let server = Server::from_uri_address(&mut uri);
    let data =
        ConnectionData::new(uri, Scope::default(), server, Scope::default(), &env(), &engine())
            .unwrap();
    assert_eq!(data.address, "host");
    assert_eq!(data.user, "user");
    assert_eq!(data.port, 2222);
    assert_eq!(data.known_hosts, "/home/me/.seashell/known_hosts");
    assert_eq!(data.private_key, None);
    assert_eq!(data.openssh_cert, None);
    assert_eq!(data.kex, engine().kex);
    assert_eq!(data.alg, engine().alg);
    assert_eq!(data.cipher, engine().cipher);
    assert_eq!(data.mac, engine().mac);
    assert_eq!(data.timeout, None);
    assert_eq!(data.interval, None);
    assert_eq!(data.retries, 3);
    assert_eq!(data.socket(), "host:2222");
}

#[test]
fn defaults_where_nothing_is_said() {
    let uri = ServerUri::parse("host");
    let data = ConnectionData::new(
        uri,
        Scope::default(),
        Server::new("host".into()),
        Scope::default(),
        &env(),
        &engine(),
    )
    .unwrap();
    assert_eq!(data.port, 22);
    assert_eq!(DEFAULT_PORT, 22);
    assert_eq!(data.user, "me");
    assert_eq!(data.socket(), "host:22");
}

#[test]
fn configured_values_replace_the_defaults() {
    let flags = Scope {
        known_hosts: Some("~/hosts".into()),
        private_key: Some("/keys/id".into()),
        kex: Some(vec!["k".into()]),
        timeout: Some(10),
        ..Scope::default()
    };
    let mut server = Server::new("h".into());
    server.scope = Scope {
        openssh_cert: Some("~/cert.pub".into()),
        private_key: Some("/other".into()),
        mac: Some(vec![]),
        interval: Some(30),
        ..Scope::default()
    };
    let default = Scope {
        retries: Some(9),
        timeout: Some(99),
        cipher: Some(vec!["c1".into(), "c2".into()]),
        ..Scope::default()
    };
    let data =
        ConnectionData::new(ServerUri::parse("h"), flags, server, default, &env(), &engine())
            .unwrap();
    assert_eq!(data.known_hosts, "/home/me/hosts");
    assert_eq!(data.private_key.as_deref(), Some("/keys/id"));
    assert_eq!(data.openssh_cert.as_deref(), Some("/home/me/cert.pub"));
    assert_eq!(data.kex, vec!["k"]);
    assert!(data.mac.is_empty());
    assert_eq!(data.cipher, vec!["c1", "c2"]);
    assert_eq!(data.alg, engine().alg);
    assert_eq!(data.timeout, Some(10));
    assert_eq!(data.interval, Some(30));
    assert_eq!(data.retries, 9);
}

#[test]
fn user_is_required() {
    let nobody = Environment {
        user: None,
        ..env()
    };
    let data = ConnectionData::new(
        ServerUri::parse("host"),
        Scope::default(),
        Server::new("host".into()),
        Scope::default(),
        &nobody,
        &engine(),
    );
    assert!(matches!(data, Err(ConnectionError::UserRequired)));
    // the missing user is reported before a bad path
    let flags = Scope {
        private_key: Some("relative".into()),
        ..Scope::default()
    };
    let data = ConnectionData::new(
        ServerUri::parse("host"),
        flags,
        Server::new("host".into()),
        Scope::default(),
        &nobody,
        &engine(),
    );
    assert!(matches!(data, Err(ConnectionError::UserRequired)));
}

#[test]
fn relative_path_is_refused() {
    let flags = Scope {
        private_key: Some("keys/id".into()),
        openssh_cert: Some("also/relative".into()),
        ..Scope::default()
    };
    let data = ConnectionData::new(
        ServerUri::parse("host"),
        flags,
        Server::new("host".into()),
        Scope::default(),
        &env(),
        &engine(),
    );
    match data {
        Err(ConnectionError::RelativePath(path)) => assert_eq!(path, "keys/id"),
        _ => panic!("a relative path was accepted"),
    }
    let default = Scope {
        known_hosts: Some("~other/hosts".into()),
        ..Scope::default()
    };
    let data = ConnectionData::new(
        ServerUri::parse("host"),
        Scope::default(),
        Server::new("host".into()),
        default,
        &env(),
        &engine(),
    );
    match data {
        Err(ConnectionError::RelativePath(path)) => assert_eq!(path, "~other/hosts"),
        _ => panic!("a relative path was accepted"),
    }
}

#[test]
fn full_paths() {
    assert_eq!(get_full_path("/etc/key".into(), "/home/me").unwrap(), "/etc/key");
    assert_eq!(get_full_path("/".into(), "/home/me").unwrap(), "/");
    assert_eq!(get_full_path("~/key".into(), "/home/me").unwrap(), "/home/me/key");
    assert_eq!(get_full_path("~/a/b".into(), "/home/me/").unwrap(), "/home/me/a/b");
    assert_eq!(get_full_path("~/".into(), "/home/me").unwrap(), "/home/me/");
    assert_eq!(get_full_path("~".into(), "/home/me").unwrap(), "/home/me/");
    assert_eq!(get_full_path("~/x".into(), "").unwrap(), "x");
    for bad in ["", "key", "./key", "~key", "../key", " /key"] {
        match get_full_path(bad.into(), "/home/me") {
            Err(ConnectionError::RelativePath(path)) => assert_eq!(path, bad),
            _ => panic!("a relative path was accepted"),
        }
    }
}

#[test]
fn joined_paths() {
    assert_eq!(join_path("/a", "b"), "/a/b");
    assert_eq!(join_path("/a/", "b"), "/a/b");
    assert_eq!(join_path("", "b"), "b");
    assert_eq!(join_path("/", "known_hosts"), "/known_hosts");
    assert_eq!(join_path("/a", ""), "/a/");
}

#[test]
fn decimal_text_of_numbers() {
    assert_eq!(decimal_text(0), "0");
    assert_eq!(decimal_text(7), "7");
    assert_eq!(decimal_text(10), "10");
    assert_eq!(decimal_text(22), "22");
    assert_eq!(decimal_text(2222), "2222");
    assert_eq!(decimal_text(40960), "40960");
    assert_eq!(decimal_text(65535), "65535");
    assert_eq!(decimal_text(u64::MAX), "18446744073709551615");
    assert_eq!(decimal_text(10_000_000_000), "10000000000");
    for n in [0u16, 9, 10, 99, 100, 101, 999, 1000, 9999, 10000, 54321, 65535] {
        assert_eq!(decimal_text(n as u64), n.to_string());
        assert_eq!(ServerUri::parse(&format!("h:{}", decimal_text(n as u64))).port, Some(n));
    }
}

#[test]
fn substitute_agrees_with_replace() {
    for (text, host) in [
        ("$h.internal", "vm-42"),
        ("a$hb$hc", "-"),
        ("$", "x"),
        ("h$", "x"),
        ("$$h", "x"),
        ("$h$h", ""),
        ("", "x"),
        ("ü$hü", "é"),
        ("$H $h", "$h"),
    ] {
        assert_eq!(substitute(text, host), text.replace("$h", host));
    }
}

#[test]
fn connection_data_clone() {
    let flags = Scope {
        private_key: Some("/k".into()),
        timeout: Some(3),
        ..Scope::default()
    };
    let data = ConnectionData::new(
        ServerUri::parse("u@h:9"),
        flags,
        Server::new("h".into()),
        Scope::default(),
        &env(),
        &engine(),
    )
    .unwrap();
    let copy = data.clone();
    assert_eq!(copy.address, data.address);
    assert_eq!(copy.user, "u");
    assert_eq!(copy.port, 9);
    assert_eq!(copy.known_hosts, data.known_hosts);
    assert_eq!(copy.private_key.as_deref(), Some("/k"));
    assert_eq!(copy.openssh_cert, None);
    assert_eq!(copy.kex, data.kex);
    assert_eq!(copy.mac, data.mac);
    assert_eq!(copy.timeout, Some(3));
    assert_eq!(copy.retries, data.retries);
}
