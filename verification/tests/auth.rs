use seashell::auth::{
    order_identities, passphrase_prompt, password_prompt, text_contains, Action, AuthFailure,
    Credentials, Engine, Event, KeyUse, Method, Stage, MAX_PASSPHRASE_ATTEMPTS,
};
use seashell::config::{Scope, Server};
use seashell::data::{ConnectionData, EngineDefaults, Environment, ServerUri};

const NOTHING: Credentials = Credentials {
    agent: false,
    private_key: false,
    certificate: false,
};

const EVERYTHING: Credentials = Credentials {
    agent: true,
    private_key: true,
    certificate: true,
};

fn begin(credentials: Credentials) -> Engine {
    let (engine, action) = Engine::start(credentials, "host.example", "alice");
    assert!(matches!(action, Action::TryNone));
    assert_eq!(engine.stage(), Stage::Start);
    engine
}

fn offered(credentials: Credentials, methods: Vec<Method>) -> (Engine, Action) {
    begin(credentials).step(Event::Rejected(methods))
}

#[test]
fn password_is_tried_when_public_key_has_nothing_to_try() {
    let (engine, action) = offered(NOTHING, vec![Method::PublicKey, Method::Password]);
    assert!(matches!(action, Action::TryPassword));
    assert_eq!(engine.stage(), Stage::Password);
    assert!(!engine.is_finished());
    let (engine, action) = engine.step(Event::Accepted);
    assert!(matches!(action, Action::Succeed));
    assert_eq!(engine.stage(), Stage::Authenticated);
    assert!(engine.is_finished());
}

#[test]
fn anonymous_access_ends_at_once() {
    let (engine, action) = begin(EVERYTHING).step(Event::Accepted);
    assert!(matches!(action, Action::Succeed));
    assert_eq!(engine.stage(), Stage::Authenticated);
    // nothing changes afterwards
    let (engine, action) = engine.step(Event::Rejected(vec![Method::Password]));
    assert!(matches!(action, Action::Succeed));
    assert_eq!(engine.stage(), Stage::Authenticated);
}

#[test]
fn no_methods() {
    let (engine, action) = offered(EVERYTHING, vec![]);
    assert!(matches!(action, Action::Fail(AuthFailure::NoMethods)));
    assert_eq!(engine.stage(), Stage::Failed);
    let (_, action) = begin(EVERYTHING).step(Event::Failed);
    assert!(matches!(action, Action::Fail(AuthFailure::NoMethods)));
}

#[test]
fn exhausted_names_the_methods_offered() {
    let methods = vec![Method::Other, Method::Password, Method::PublicKey];
    let (engine, action) = offered(NOTHING, methods.clone());
    assert!(matches!(action, Action::TryPassword));
    let (engine, action) = engine.step(Event::Rejected(vec![]));
    match action {
        Action::Fail(AuthFailure::Exhausted {
            methods: named,
            passphrase_exhausted: false,
            load_failed: false,
        }) => assert_eq!(named, methods),
        _ => panic!("not exhausted"),
    }
    assert_eq!(engine.stage(), Stage::Failed);
    assert_eq!(engine.methods(), &methods);
    let (engine, action) = engine.step(Event::Accepted);
    assert!(matches!(action, Action::Fail(AuthFailure::Exhausted { .. })));
    assert!(engine.is_finished());
    // only methods that the client takes no part in
    let (_, action) = offered(EVERYTHING, vec![Method::Other, Method::Other]);
    assert!(matches!(action, Action::Fail(AuthFailure::Exhausted { methods, .. }) if methods.len() == 2));
}

#[test]
fn public_key_goes_through_agent_certificate_and_key() {
    let (engine, action) = offered(EVERYTHING, vec![Method::PublicKey, Method::Password]);
    assert!(matches!(action, Action::QueryAgent));
    let comments = vec!["work laptop".to_string(), "alice@home".to_string()];
    let (engine, action) = engine.step(Event::Identities(comments));
    // the identity that names the user comes first
    assert!(matches!(action, Action::TryIdentity(1)));
    let (engine, action) = engine.step(Event::Rejected(vec![]));
    assert!(matches!(action, Action::TryIdentity(0)));
    let (engine, action) = engine.step(Event::Rejected(vec![]));
    assert!(matches!(action, Action::LoadKey));
    assert_eq!(engine.stage(), Stage::Key(KeyUse::Certificate));
    let (engine, action) = engine.step(Event::KeyLoaded);
    assert!(matches!(action, Action::LoadCertificate));
    let (engine, action) = engine.step(Event::CertificateLoaded);
    assert!(matches!(action, Action::TryCertificate));
    let (engine, action) = engine.step(Event::Rejected(vec![]));
    assert!(matches!(action, Action::LoadKey));
    assert_eq!(engine.stage(), Stage::Key(KeyUse::PublicKey));
    let (engine, action) = engine.step(Event::KeyLoaded);
    assert!(matches!(action, Action::TryPublicKey));
    assert_eq!(engine.stage(), Stage::KeyAuth);
    let (engine, action) = engine.step(Event::Rejected(vec![]));
    assert!(matches!(action, Action::TryPassword));
    let (_, action) = engine.step(Event::Rejected(vec![]));
    assert!(matches!(action, Action::Fail(AuthFailure::Exhausted { .. })));
}

#[test]
fn identity_accepted() {
    let (engine, _) = offered(EVERYTHING, vec![Method::PublicKey]);
    let (engine, action) = engine.step(Event::Identities(vec!["k".into()]));
    assert!(matches!(action, Action::TryIdentity(0)));
    assert_eq!(engine.stage(), Stage::Identity);
    let (engine, action) = engine.step(Event::Accepted);
    assert!(matches!(action, Action::Succeed));
    assert_eq!(engine.stage(), Stage::Authenticated);
}

#[test]
fn agent_that_does_not_answer_is_passed_over() {
    let agent_only = Credentials {
        agent: true,
        ..NOTHING
    };
    let (engine, action) = offered(agent_only, vec![Method::PublicKey, Method::KeyboardInteractive]);
    assert!(matches!(action, Action::QueryAgent));
    let (engine, action) = engine.step(Event::Failed);
    assert!(matches!(action, Action::StartInteractive));
    assert_eq!(engine.stage(), Stage::Interactive);
    // an agent without identities
    let (engine, _) = offered(agent_only, vec![Method::PublicKey, Method::Password]);
    let (_, action) = engine.step(Event::Identities(vec![]));
    assert!(matches!(action, Action::TryPassword));
}

#[test]
fn key_without_certificate_is_tried_alone() {
    let key_only = Credentials {
        private_key: true,
        ..NOTHING
    };
    let (engine, action) = offered(key_only, vec![Method::PublicKey]);
    assert!(matches!(action, Action::LoadKey));
    assert_eq!(engine.stage(), Stage::Key(KeyUse::PublicKey));
    // a certificate without a key is not used
    let cert_only = Credentials {
        certificate: true,
        ..NOTHING
    };
    let (_, action) = offered(cert_only, vec![Method::PublicKey, Method::Password]);
    assert!(matches!(action, Action::TryPassword));
}

#[test]
fn passphrase_is_asked_three_times_at_most() {
    assert_eq!(MAX_PASSPHRASE_ATTEMPTS, 3);
    let both = Credentials {
        agent: false,
        ..EVERYTHING
    };
    let (engine, action) = offered(both, vec![Method::PublicKey, Method::Password]);
    assert!(matches!(action, Action::LoadKey));
    let (engine, action) = engine.step(Event::KeyEncrypted);
    assert!(matches!(action, Action::AskPassphrase));
    assert_eq!(engine.stage(), Stage::Passphrase(KeyUse::Certificate));
    let (engine, action) = engine.step(Event::WrongPassphrase);
    assert!(matches!(action, Action::AskPassphrase));
    let (engine, action) = engine.step(Event::WrongPassphrase);
    assert!(matches!(action, Action::AskPassphrase));
    assert!(!engine.key_is_dead());
    let (engine, action) = engine.step(Event::WrongPassphrase);
    // the key is given up for good: neither certificate nor key are tried
    assert!(engine.key_is_dead());
    assert!(!engine.load_has_failed());
    assert!(matches!(action, Action::TryPassword));
    assert_eq!(engine.stage(), Stage::Password);
    let (_, action) = engine.step(Event::Rejected(vec![]));
    assert!(matches!(
        action,
        Action::Fail(AuthFailure::Exhausted {
            passphrase_exhausted: true,
            load_failed: false,
            ..
        })
    ));
}

#[test]
fn passphrase_accepted_at_the_last_attempt() {
    let key_only = Credentials {
        private_key: true,
        ..NOTHING
    };
    let (engine, _) = offered(key_only, vec![Method::PublicKey]);
    let (engine, _) = engine.step(Event::KeyEncrypted);
    let (engine, _) = engine.step(Event::WrongPassphrase);
    let (engine, _) = engine.step(Event::WrongPassphrase);
    let (engine, action) = engine.step(Event::KeyLoaded);
    assert!(matches!(action, Action::TryPublicKey));
    assert!(!engine.key_is_dead());
    let (_, action) = engine.step(Event::Accepted);
    assert!(matches!(action, Action::Succeed));
}

#[test]
fn failed_load_ends_only_that_attempt() {
    let both = Credentials {
        agent: false,
        ..EVERYTHING
    };
    // the key cannot be read for the certificate: the key alone is still tried
    let (engine, _) = offered(both, vec![Method::PublicKey, Method::Password]);
    let (engine, action) = engine.step(Event::Failed);
    assert!(matches!(action, Action::LoadKey));
    assert_eq!(engine.stage(), Stage::Key(KeyUse::PublicKey));
    let (engine, action) = engine.step(Event::Failed);
    assert!(matches!(action, Action::TryPassword));
    assert!(!engine.key_is_dead());
    assert!(engine.load_has_failed());
    let (_, action) = engine.step(Event::Rejected(vec![]));
    match action {
        Action::Fail(failure) => assert_eq!(
            failure.message(),
            "Authentication failed (tried: publickey, password); credential file could not be loaded"
        ),
        _ => panic!("not failed"),
    }
    // the terminal cannot be read for the passphrase
    let (engine, _) = offered(both, vec![Method::PublicKey, Method::Password]);
    let (engine, _) = engine.step(Event::KeyEncrypted);
    let (engine, action) = engine.step(Event::Failed);
    assert!(matches!(action, Action::LoadKey));
    assert_eq!(engine.stage(), Stage::Key(KeyUse::PublicKey));
    // the certificate cannot be read
    let (engine, _) = offered(both, vec![Method::PublicKey]);
    let (engine, _) = engine.step(Event::KeyLoaded);
    let (engine, action) = engine.step(Event::Failed);
    assert!(matches!(action, Action::LoadKey));
    assert_eq!(engine.stage(), Stage::Key(KeyUse::PublicKey));
    // the password cannot be read
    let (engine, _) = offered(NOTHING, vec![Method::Password, Method::KeyboardInteractive]);
    let (_, action) = engine.step(Event::Failed);
    assert!(matches!(action, Action::StartInteractive));
}

#[test]
fn keyboard_interactive_rounds() {
    let (engine, action) = offered(NOTHING, vec![Method::KeyboardInteractive, Method::Password]);
    assert!(matches!(action, Action::StartInteractive));
    let (engine, action) = engine.step(Event::Prompts);
    assert!(matches!(action, Action::AnswerPrompts));
    let (engine, action) = engine.step(Event::Prompts);
    assert!(matches!(action, Action::AnswerPrompts));
    assert_eq!(engine.stage(), Stage::Interactive);
    let (engine, action) = engine.step(Event::Rejected(vec![]));
    assert!(matches!(action, Action::TryPassword));
    assert_eq!(engine.stage(), Stage::Password);
    let (engine, _) = offered(NOTHING, vec![Method::KeyboardInteractive]);
    let (engine, _) = engine.step(Event::Prompts);
    let (engine, action) = engine.step(Event::Accepted);
    assert!(matches!(action, Action::Succeed));
    assert!(engine.is_finished());
}

#[test]
fn each_method_is_tried_once_in_the_order_offered() {
    let methods = vec![
        Method::Password,
        Method::KeyboardInteractive,
        Method::Password,
        Method::Other,
    ];
    let (engine, action) = offered(NOTHING, methods);
    assert!(matches!(action, Action::TryPassword));
    let (engine, action) = engine.step(Event::Rejected(vec![Method::PublicKey]));
    assert!(matches!(action, Action::StartInteractive));
    let (engine, action) = engine.step(Event::Rejected(vec![]));
    assert!(matches!(action, Action::TryPassword));
    let (engine, action) = engine.step(Event::Rejected(vec![]));
    assert!(matches!(action, Action::Fail(AuthFailure::Exhausted { methods, .. }) if methods.len() == 4));
    assert_eq!(engine.methods().len(), 4);
}

#[test]
fn identities_that_name_the_server_or_the_user_come_first() {
    let comments: Vec<String> = ["old key", "alice@laptop", "backup", "for host.example", "alice host.example"]
        .iter()
        .map(|c| c.to_string())
        .collect();
    assert_eq!(order_identities(&comments, "host.example", "alice"), vec![1, 3, 4, 0, 2]);
    assert_eq!(order_identities(&comments, "nowhere", "nobody"), vec![0, 1, 2, 3, 4]);
    // every comment holds the empty name
    assert_eq!(order_identities(&comments, "nowhere", ""), vec![0, 1, 2, 3, 4]);
    assert_eq!(order_identities(&vec![], "h", "u"), Vec::<usize>::new());
    assert_eq!(order_identities(&comments, "backup", "old"), vec![0, 2, 1, 3, 4]);
}

#[test]
fn contains() {
    let chars = |s: &str| -> Vec<char> { s.chars().collect() };
    for (text, needle) in [
        ("", ""),
        ("a", ""),
        ("", "a"),
        ("abc", "abc"),
        ("abc", "bc"),
        ("abc", "ab"),
        ("abc", "ac"),
        ("abc", "abcd"),
        ("aab", "ab"),
        ("ééa", "éa"),
        ("mississippi", "issip"),
        ("mississippi", "issipi"),
    ] {
        assert_eq!(text_contains(&chars(text), &chars(needle)), text.contains(needle));
    }
}

#[test]
fn credentials_of_the_connection() {
    let env = Environment {
        user: Some("me".into()),
        home_dir: "/home/me".into(),
        work_dir: "/w".into(),
    };
    let engine = EngineDefaults {
        kex: vec![],
        alg: vec![],
        cipher: vec![],
        mac: vec![],
        retries: 0,
    };
    let flags = Scope {
        private_key: Some("/k".into()),
        ..Scope::default()
    };
    let data = ConnectionData::new(
        ServerUri::parse("h"),
        flags,
        Server::new("h".into()),
        Scope::default(),
        &env,
        &engine,
    )
    .unwrap();
    assert_eq!(
        Credentials::of(&data, true),
        Credentials {
            agent: true,
            private_key: true,
            certificate: false
        }
    );
}

#[test]
fn messages_and_prompts() {
    assert_eq!(Method::PublicKey.name(), "publickey");
    assert_eq!(Method::KeyboardInteractive.name(), "keyboard-interactive");
    assert_eq!(Method::Password.name(), "password");
    assert_eq!(Method::Other.name(), "other");
    assert_eq!(AuthFailure::NoMethods.message(), "No authentication method available");
    let failure = |methods, passphrase_exhausted, load_failed| AuthFailure::Exhausted {
        methods,
        passphrase_exhausted,
        load_failed,
    };
    assert_eq!(
        failure(vec![Method::PublicKey, Method::Password, Method::Other], false, false).message(),
        "Authentication failed (tried: publickey, password, other)"
    );
    assert_eq!(
        failure(vec![Method::KeyboardInteractive], true, false).message(),
        "Authentication failed (tried: keyboard-interactive); passphrase attempts exhausted"
    );
    assert_eq!(
        failure(vec![Method::PublicKey], true, true).message(),
        "Authentication failed (tried: publickey); passphrase attempts exhausted; credential file could not be loaded"
    );
    assert_eq!(password_prompt("alice", "host.example"), "alice@host.example's password: ");
    assert_eq!(passphrase_prompt("/home/a/.ssh/id"), "Enter passphrase for key '/home/a/.ssh/id': ");
}
