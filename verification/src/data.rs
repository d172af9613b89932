use crate::config::{first_of, Scope, ScopeView, Server, ServerView};
use crate::error::ConnectionError;
use crate::text::{
    all_digits, chars_of, copy_names, decimal_digits, decimal_text, find_first, find_last,
    is_digit, lemma_decimal_round_trip, lemma_port_round_trip, parse_port, port_of, push_char,
    text_of,
};
use std::str::FromStr;
use vstd::prelude::*;
use vstd::string::StringExecFns;

verus! {

/// What the user typed to name a server: `[user@]host[:port]`.
#[derive(Debug)]
pub struct ServerUri {
    /// The host part.
    pub address: String,
    /// The user part, if there is an `@`.
    pub user: Option<String>,
    /// The port part, if what follows the last `:` is a port number.
    pub port: Option<u16>,
}

/// What a [`ServerUri`] holds, as mathematical values.
pub struct UriView {
    pub address: Seq<char>,
    pub user: Option<Seq<char>>,
    pub port: Option<u16>,
}

impl View for ServerUri {
    type V = UriView;

    open spec fn view(&self) -> UriView {
        UriView { address: self.address@, user: self.user.deep_view(), port: self.port }
    }
}

/// The user that `input` names: what stands before its first `@`.
pub open spec fn uri_user(input: Seq<char>) -> Option<Seq<char>> {
    match input.index_of_first('@') {
        Some(at) => Some(input.take(at)),
        None => None,
    }
}

/// What follows the first `@` of `input`; all of it where it has none.
pub open spec fn uri_host_port(input: Seq<char>) -> Seq<char> {
    match input.index_of_first('@') {
        Some(at) => input.skip(at + 1),
        None => input,
    }
}

/// The port that `host_port` ends with: what follows its last `:`, where
/// that reads as a port.
pub open spec fn uri_port(host_port: Seq<char>) -> Option<u16> {
    match host_port.index_of_last(':') {
        Some(colon) => port_of(host_port.skip(colon + 1)),
        None => None,
    }
}

/// The address in `host_port`: what stands before the last `:` where a port
/// follows it, else all of it.
pub open spec fn uri_address(host_port: Seq<char>) -> Seq<char> {
    match host_port.index_of_last(':') {
        Some(colon) => if port_of(host_port.skip(colon + 1)) is Some {
            host_port.take(colon)
        } else {
            host_port
        },
        None => host_port,
    }
}

/// The parts of `[user@]host[:port]`.
pub open spec fn parse_uri(input: Seq<char>) -> UriView {
    UriView {
        address: uri_address(uri_host_port(input)),
        user: uri_user(input),
        port: uri_port(uri_host_port(input)),
    }
}

impl ServerUri {
    /// Takes `[user@]host[:port]` apart. Every input has a reading: without
    /// an `@` there is no user, and where no port number follows the last
    /// `:`, the whole rest is the address.
    pub fn parse(input: &str) -> (uri: ServerUri)
        ensures
            uri@ == parse_uri(input@),
    {
        let all = chars_of(input);
        let (user, rest) = match find_first(&all, '@') {
            Some(at) => {
                let user = text_of(&all, 0, at);
                let mut rest: Vec<char> = Vec::new();
                let mut i: usize = at + 1;
                while i < all.len()
                    invariant
                        at < i <= all.len(),
                        rest@ == all@.subrange(at + 1, i as int),
                    decreases all.len() - i,
                {
                    rest.push(all[i]);
                    i = i + 1;
                }
                assert(all@.subrange(0, at as int) =~= all@.take(at as int));
                assert(rest@ =~= all@.skip(at + 1));
                (Some(user), rest)
            },
            None => (None, all),
        };
        assert(rest@ == uri_host_port(input@));
        assert(user.deep_view() == uri_user(input@));
        let end = rest.len();
        match find_last(&rest, ':') {
            Some(colon) => {
                match parse_port(&rest, colon + 1) {
                    Some(port) => {
                        assert(rest@.subrange(0, colon as int) =~= rest@.take(colon as int));
                        ServerUri { address: text_of(&rest, 0, colon), user, port: Some(port) }
                    },
                    None => {
                        assert(rest@.subrange(0, end as int) =~= rest@);
                        ServerUri { address: text_of(&rest, 0, end), user, port: None }
                    },
                }
            },
            None => {
                assert(rest@.subrange(0, end as int) =~= rest@);
                ServerUri { address: text_of(&rest, 0, end), user, port: None }
            },
        }
    }
}

impl FromStr for ServerUri {
    type Err = &'static str;

    fn from_str(input: &str) -> (parsed: Result<ServerUri, &'static str>)
        ensures
            parsed matches Ok(uri) && uri@ == parse_uri(input@),
    {
        Ok(ServerUri::parse(input))
    }
}

impl Clone for ServerUri {
    fn clone(&self) -> (uri: ServerUri)
        ensures
            uri@ == self@,
    {
        ServerUri {
            address: self.address.clone(),
            user: crate::text::copy_opt_text(&self.user),
            port: self.port,
        }
    }
}

/// What the process knows of the machine it runs on.
#[derive(Debug)]
pub struct Environment {
    /// The name of the current user, if the system reports one.
    pub user: Option<String>,
    /// The home directory of the current user.
    pub home_dir: String,
    /// The directory in which the application keeps its files.
    pub work_dir: String,
}

/// What the protocol engine uses where nothing is configured.
#[derive(Debug)]
pub struct EngineDefaults {
    /// Key-exchange algorithms, in the order of preference.
    pub kex: Vec<String>,
    /// Host-key and public-key algorithms, in the order of preference.
    pub alg: Vec<String>,
    /// Symmetric ciphers, in the order of preference.
    pub cipher: Vec<String>,
    /// MAC algorithms, in the order of preference.
    pub mac: Vec<String>,
    /// Keepalive messages that may go unanswered.
    pub retries: usize,
}

/// The port of SSH.
pub const DEFAULT_PORT: u16 = 22;

/// All that is needed to open one connection.
#[derive(Debug)]
pub struct ConnectionData {
    pub address: String,
    pub user: String,
    pub port: u16,
    pub known_hosts: String,
    pub private_key: Option<String>,
    pub openssh_cert: Option<String>,
    pub kex: Vec<String>,
    pub alg: Vec<String>,
    pub cipher: Vec<String>,
    pub mac: Vec<String>,
    pub timeout: Option<u64>,
    pub interval: Option<u64>,
    pub retries: usize,
}

/// What a [`ConnectionData`] holds, as mathematical values.
pub struct ConnectionView {
    pub address: Seq<char>,
    pub user: Seq<char>,
    pub port: u16,
    pub known_hosts: Seq<char>,
    pub private_key: Option<Seq<char>>,
    pub openssh_cert: Option<Seq<char>>,
    pub kex: Seq<Seq<char>>,
    pub alg: Seq<Seq<char>>,
    pub cipher: Seq<Seq<char>>,
    pub mac: Seq<Seq<char>>,
    pub timeout: Option<u64>,
    pub interval: Option<u64>,
    pub retries: usize,
}

impl View for ConnectionData {
    type V = ConnectionView;

    open spec fn view(&self) -> ConnectionView {
        ConnectionView {
            address: self.address@,
            user: self.user@,
            port: self.port,
            known_hosts: self.known_hosts@,
            private_key: self.private_key.deep_view(),
            openssh_cert: self.openssh_cert.deep_view(),
            kex: self.kex.deep_view(),
            alg: self.alg.deep_view(),
            cipher: self.cipher.deep_view(),
            mac: self.mac.deep_view(),
            timeout: self.timeout,
            interval: self.interval,
            retries: self.retries,
        }
    }
}

impl Clone for ConnectionData {
    fn clone(&self) -> (data: ConnectionData)
        ensures
            data@ == self@,
    {
        ConnectionData {
            address: self.address.clone(),
            user: self.user.clone(),
            port: self.port,
            known_hosts: self.known_hosts.clone(),
            private_key: crate::text::copy_opt_text(&self.private_key),
            openssh_cert: crate::text::copy_opt_text(&self.openssh_cert),
            kex: copy_names(&self.kex),
            alg: copy_names(&self.alg),
            cipher: copy_names(&self.cipher),
            mac: copy_names(&self.mac),
            timeout: self.timeout,
            interval: self.interval,
            retries: self.retries,
        }
    }
}

/// `name` under the directory `base`: a `/` stands between the two unless
/// `base` is empty or ends with one.
pub open spec fn joined(base: Seq<char>, name: Seq<char>) -> Seq<char> {
    if base.len() == 0 || base.last() == '/' {
        base + name
    } else {
        base + seq!['/'] + name
    }
}

/// Whether the path is `~` or begins with `~/`.
pub open spec fn under_home(path: Seq<char>) -> bool {
    path.len() >= 1 && path[0] == '~' && (path.len() == 1 || path[1] == '/')
}

/// What follows the `~/` of a path under the home directory.
pub open spec fn after_home(path: Seq<char>) -> Seq<char> {
    if path.len() >= 2 {
        path.skip(2)
    } else {
        Seq::empty()
    }
}

/// The full path that `path` stands for: itself where it begins with `/`,
/// what follows `~/` under `home` where it begins so, and nothing otherwise.
pub open spec fn expanded(path: Seq<char>, home: Seq<char>) -> Option<Seq<char>> {
    if path.len() >= 1 && path[0] == '/' {
        Some(path)
    } else if under_home(path) {
        Some(joined(home, after_home(path)))
    } else {
        None
    }
}

/// `name` under the directory `base`.
pub fn join_path(base: &str, name: &str) -> (path: String)
    ensures
        path@ == joined(base@, name@),
{
    let b = chars_of(base);
    let mut path = base.to_owned();
    if b.len() > 0 && b[b.len() - 1] != '/' {
        path.append("/");
        proof {
            reveal_strlit("/");
            assert("/"@ =~= seq!['/']);
        }
    }
    path.append(name);
    path
}

/// The full path that `path` stands for, given the home directory. A path
/// that is neither absolute nor under `~` is refused, and the error holds
/// it.
pub fn get_full_path(path: String, home: &str) -> (full: Result<String, ConnectionError>)
    ensures
        match expanded(path@, home@) {
            Some(text) => full matches Ok(p) && p@ == text,
            None => full matches Err(ConnectionError::RelativePath(p)) && p@ == path@,
        },
{
    let v = chars_of(path.as_str());
    if v.len() >= 1 && v[0] == '/' {
        Ok(path)
    } else if v.len() >= 1 && v[0] == '~' && (v.len() == 1 || v[1] == '/') {
        let from: usize = if v.len() == 1 {
            1
        } else {
            2
        };
        let rest = text_of(&v, from, v.len());
        assert(rest@ =~= after_home(v@));
        Ok(join_path(home, rest.as_str()))
    } else {
        Err(ConnectionError::RelativePath(path))
    }
}

/// What an [`Environment`] holds, as mathematical values.
pub struct EnvironmentView {
    pub user: Option<Seq<char>>,
    pub home_dir: Seq<char>,
    pub work_dir: Seq<char>,
}

impl View for Environment {
    type V = EnvironmentView;

    open spec fn view(&self) -> EnvironmentView {
        EnvironmentView {
            user: self.user.deep_view(),
            home_dir: self.home_dir@,
            work_dir: self.work_dir@,
        }
    }
}

/// What [`EngineDefaults`] hold, as mathematical values.
pub struct EngineView {
    pub kex: Seq<Seq<char>>,
    pub alg: Seq<Seq<char>>,
    pub cipher: Seq<Seq<char>>,
    pub mac: Seq<Seq<char>>,
    pub retries: usize,
}

impl View for EngineDefaults {
    type V = EngineView;

    open spec fn view(&self) -> EngineView {
        EngineView {
            kex: self.kex.deep_view(),
            alg: self.alg.deep_view(),
            cipher: self.cipher.deep_view(),
            mac: self.mac.deep_view(),
            retries: self.retries,
        }
    }
}

/// Why no parameters can be built.
pub enum BuildFailure {
    /// No source names a user.
    NoUser,
    /// The configured path that cannot be expanded.
    RelativePath(Seq<char>),
}

/// The value of an optional setting, or `fallback` where it is absent.
pub open spec fn value_or<T>(setting: Option<T>, fallback: T) -> T {
    match setting {
        Some(value) => value,
        None => fallback,
    }
}

/// What the configuration says once its three levels are merged: the flags
/// of the command line before the server's own attributes, and those before
/// the global defaults.
pub open spec fn cascade(flags: ScopeView, server: ServerView, default: ScopeView) -> ScopeView {
    flags.merge(server.scope).merge(default)
}

/// Whether a configured path is present and cannot be expanded.
pub open spec fn is_bad_path(path: Option<Seq<char>>, home: Seq<char>) -> bool {
    path matches Some(p) && expanded(p, home) is None
}

/// The first of the three configured paths, in the order host-key store,
/// private key, certificate, that cannot be expanded.
pub open spec fn bad_path(settings: ScopeView, home: Seq<char>) -> Option<Seq<char>> {
    if is_bad_path(settings.known_hosts, home) {
        settings.known_hosts
    } else if is_bad_path(settings.private_key, home) {
        settings.private_key
    } else if is_bad_path(settings.openssh_cert, home) {
        settings.openssh_cert
    } else {
        None
    }
}

/// The expansion of a configured path that is present and can be expanded.
pub open spec fn full_path(path: Option<Seq<char>>, home: Seq<char>) -> Option<Seq<char>> {
    match path {
        Some(p) => expanded(p, home),
        None => None,
    }
}

/// The parameters of a connection. For each of them the first source that
/// has a value decides: the typed reference, the flags, the resolved server,
/// the global defaults. Where none has one, the user is that of the
/// environment, the port is 22, the host-key store is `known_hosts` in the
/// working directory, and algorithms and keepalive retries are those of the
/// protocol engine. Paths from the configuration are expanded.
pub open spec fn build(
    uri: UriView,
    flags: ScopeView,
    server: ServerView,
    default: ScopeView,
    env: EnvironmentView,
    engine: EngineView,
) -> Result<ConnectionView, BuildFailure> {
    let settings = cascade(flags, server, default);
    let user = first_of(first_of(uri.user, settings.user), env.user);
    match (user, bad_path(settings, env.home_dir)) {
        (None, _) => Err(BuildFailure::NoUser),
        (Some(_), Some(path)) => Err(BuildFailure::RelativePath(path)),
        (Some(user), None) => Ok(
            ConnectionView {
                address: server.address,
                user,
                port: value_or(first_of(uri.port, settings.port), DEFAULT_PORT),
                known_hosts: value_or(
                    full_path(settings.known_hosts, env.home_dir),
                    joined(env.work_dir, "known_hosts"@),
                ),
                private_key: full_path(settings.private_key, env.home_dir),
                openssh_cert: full_path(settings.openssh_cert, env.home_dir),
                kex: value_or(settings.kex, engine.kex),
                alg: value_or(settings.alg, engine.alg),
                cipher: value_or(settings.cipher, engine.cipher),
                mac: value_or(settings.mac, engine.mac),
                timeout: settings.timeout,
                interval: settings.interval,
                retries: value_or(settings.retries, engine.retries),
            },
        ),
    }
}

/// The expansion of a path that may be absent.
fn full_path_of(path: Option<String>, home: &str) -> (full: Result<Option<String>, ConnectionError>)
    ensures
        match path {
            Some(p) => match expanded(p@, home@) {
                Some(text) => full matches Ok(Some(q)) && q@ == text,
                None => full matches Err(ConnectionError::RelativePath(q)) && q@ == p@,
            },
            None => full matches Ok(None),
        },
{
    match path {
        Some(p) => match get_full_path(p, home) {
            Ok(q) => Ok(Some(q)),
            Err(error) => Err(error),
        },
        None => Ok(None),
    }
}

/// The configured list of names, or a copy of the engine's.
fn names_or(setting: Option<Vec<String>>, fallback: &Vec<String>) -> (names: Vec<String>)
    ensures
        names.deep_view() == value_or(setting.deep_view(), fallback.deep_view()),
{
    match setting {
        Some(names) => names,
        None => copy_names(fallback),
    }
}

impl ConnectionData {
    /// Builds the parameters of a connection from the typed reference, the
    /// flags of the command line, the resolved server and the global
    /// defaults, in this order of precedence. Fails where no source names a
    /// user, and where a configured path is neither absolute nor under `~`.
    pub fn new(
        uri: ServerUri,
        flags: Scope,
        server: Server,
        default: Scope,
        env: &Environment,
        engine: &EngineDefaults,
    ) -> (data: Result<ConnectionData, ConnectionError>)
        ensures
            match build(uri@, flags@, server@, default@, env@, engine@) {
                Ok(view) => data matches Ok(d) && d@ == view,
                Err(BuildFailure::NoUser) => data matches Err(ConnectionError::UserRequired),
                Err(BuildFailure::RelativePath(path)) => data matches Err(
                    ConnectionError::RelativePath(p),
                ) && p@ == path,
            },
    {
        let Server { address, scope } = server;
        let mut settings = flags;
        settings.merge(scope);
        settings.merge(default);
        assert(settings@ == cascade(flags@, server@, default@));
        let Scope {
            user,
            port,
            known_hosts,
            private_key,
            openssh_cert,
            kex,
            alg,
            cipher,
            mac,
            timeout,
            interval,
            retries,
        } = settings;
        let ServerUri { address: _, user: uri_user, port: uri_port } = uri;
        let user = match uri_user {
            Some(user) => user,
            None => match user {
                Some(user) => user,
                None => match &env.user {
                    Some(user) => user.clone(),
                    None => {
                        return Err(ConnectionError::UserRequired);
                    },
                },
            },
        };
        let port = match uri_port {
            Some(port) => port,
            None => match port {
                Some(port) => port,
                None => DEFAULT_PORT,
            },
        };
        let home = env.home_dir.as_str();
        let known_hosts = match full_path_of(known_hosts, home) {
            Ok(Some(path)) => path,
            Ok(None) => join_path(env.work_dir.as_str(), "known_hosts"),
            Err(error) => {
                return Err(error);
            },
        };
        let private_key = match full_path_of(private_key, home) {
            Ok(path) => path,
            Err(error) => {
                return Err(error);
            },
        };
        let openssh_cert = match full_path_of(openssh_cert, home) {
            Ok(path) => path,
            Err(error) => {
                return Err(error);
            },
        };
        Ok(
            ConnectionData {
                address,
                user,
                port,
                known_hosts,
                private_key,
                openssh_cert,
                kex: names_or(kex, &engine.kex),
                alg: names_or(alg, &engine.alg),
                cipher: names_or(cipher, &engine.cipher),
                mac: names_or(mac, &engine.mac),
                timeout,
                interval,
                retries: match retries {
                    Some(count) => count,
                    None => engine.retries,
                },
            },
        )
    }
}

impl ConnectionView {
    /// The address and the port as one text, with a colon between them.
    pub open spec fn socket(self) -> Seq<char> {
        self.address + seq![':'] + decimal_digits(self.port as nat)
    }
}

impl ConnectionData {
    /// The address and the port as one text, `address:port`, as it is
    /// handed on to be resolved.
    pub fn socket(&self) -> (text: String)
        ensures
            text@ == self@.socket(),
    {
        let mut text = self.address.clone();
        push_char(&mut text, ':');
        let port = decimal_text(self.port as u64);
        text.append(port.as_str());
        assert(text@ =~= self@.socket());
        text
    }
}

/// What the typed reference says of the user and of the port stands,
/// whatever the flags, the server and the defaults say.
pub proof fn lemma_uri_outranks(
    uri: UriView,
    flags: ScopeView,
    server: ServerView,
    default: ScopeView,
    env: EnvironmentView,
    engine: EngineView,
)
    requires
        build(uri, flags, server, default, env, engine) is Ok,
    ensures
        uri.user matches Some(user) ==> build(uri, flags, server, default, env, engine)->Ok_0.user
            == user,
        uri.port matches Some(port) ==> build(uri, flags, server, default, env, engine)->Ok_0.port
            == port,
{
}

/// Where no source says anything, only the user of the environment is
/// needed, and every other parameter has its default.
pub proof fn lemma_build_defaults(
    address: Seq<char>,
    user: Seq<char>,
    env: EnvironmentView,
    engine: EngineView,
)
    requires
        env.user == Some(user),
    ensures
        build(
            UriView { address, user: None, port: None },
            ScopeView::empty(),
            ServerView::bare(address),
            ScopeView::empty(),
            env,
            engine,
        ) == Ok::<ConnectionView, BuildFailure>(
            ConnectionView {
                address,
                user,
                port: 22,
                known_hosts: joined(env.work_dir, "known_hosts"@),
                private_key: None,
                openssh_cert: None,
                kex: engine.kex,
                alg: engine.alg,
                cipher: engine.cipher,
                mac: engine.mac,
                timeout: None,
                interval: None,
                retries: engine.retries,
            },
        ),
{
}

/// The reference written as `user@host:port`.
pub open spec fn written(user: Seq<char>, host: Seq<char>, port: u16) -> Seq<char> {
    user + seq!['@'] + host + seq![':'] + decimal_digits(port as nat)
}

/// A reference written as `user@host:port` reads back as these three
/// parts, as long as neither the user nor the host holds an `@`.
pub proof fn lemma_written_reference_reads_back(user: Seq<char>, host: Seq<char>, port: u16)
    requires
        !user.contains('@'),
        !host.contains('@'),
    ensures
        parse_uri(written(user, host, port)) == (UriView {
            address: host,
            user: Some(user),
            port: Some(port),
        }),
{
    let digits = decimal_digits(port as nat);
    let input = written(user, host, port);
    let rest = host + seq![':'] + digits;
    let at = user.len() as int;
    let colon = host.len() as int;
    lemma_decimal_round_trip(port as nat);
    lemma_port_round_trip(port);
    assert(all_digits(digits));
    // the first `@` is the one after the user
    assert(input[at] == '@');
    assert forall|j: int| 0 <= j < at implies input[j] != '@' by {
        assert(input[j] == user[j]);
        assert(user.contains(user[j]));
    }
    input.index_of_first_ensures('@');
    assert(input.contains('@'));
    assert(input.index_of_first('@') == Some(at));
    assert(input.take(at) =~= user);
    assert(input.skip(at + 1) =~= rest);
    // the last `:` is the one before the port
    assert(rest[colon] == ':');
    assert forall|j: int| colon < j < rest.len() implies rest[j] != ':' by {
        assert(rest[j] == digits[j - colon - 1]);
        assert(is_digit(digits[j - colon - 1]));
    }
    rest.index_of_last_ensures(':');
    assert(rest.contains(':'));
    assert(rest.index_of_last(':') == Some(colon));
    assert(rest.skip(colon + 1) =~= digits);
    assert(rest.take(colon) =~= host);
}

} // verus!
