use crate::config::{Config, ConfigView, Scope, ScopeView, Server, ServerView};
use crate::data::{
    build, joined, lemma_written_reference_reads_back, parse_uri, written, BuildFailure,
    ConnectionData, ConnectionView, EngineDefaults, EngineView, Environment, EnvironmentView,
    ServerUri, UriView,
};
use crate::error::{CliError, ConnectionError, Failure};
use crate::resolve::{lemma_empty_configuration_finds_nothing, resolve, resolve_server, Resolution};
use vstd::prelude::*;

verus! {

/// Why no connection can be prepared.
pub enum PrepareFailure {
    /// A configured name that was tried as a pattern is no regular
    /// expression.
    BadPattern,
    /// The active scope lists the server, but the configuration has no
    /// attributes under the scope's name.
    UnknownScope(Seq<char>),
    /// No source names a user.
    NoUser,
    /// The configured path that cannot be expanded.
    RelativePath(Seq<char>),
}

/// The global defaults, or the scope that sets nothing where there are none.
pub open spec fn defaults_of(config: ConfigView) -> ScopeView {
    match config.default {
        Some(scope) => scope,
        None => ScopeView::empty(),
    }
}

/// The parameters of the connection that a typed reference stands for:
/// the host is resolved in the configuration, the typed host itself is the
/// address where the configuration has no entry for it, and the parameters
/// are built from the reference, the flags, the server and the defaults.
pub open spec fn prepared(
    uri: UriView,
    flags: ScopeView,
    config: ConfigView,
    current: Seq<char>,
    env: EnvironmentView,
    engine: EngineView,
) -> Result<ConnectionView, PrepareFailure> {
    let server = match resolve(config, uri.address, current) {
        Resolution::Found(server) => Ok(server),
        Resolution::NotFound => Ok(ServerView::bare(uri.address)),
        Resolution::BadPattern(_) => Err(PrepareFailure::BadPattern),
        Resolution::UnknownScope => Err(PrepareFailure::UnknownScope(current)),
    };
    match server {
        Ok(server) => match build(uri, flags, server, defaults_of(config), env, engine) {
            Ok(data) => Ok(data),
            Err(BuildFailure::NoUser) => Err(PrepareFailure::NoUser),
            Err(BuildFailure::RelativePath(path)) => Err(PrepareFailure::RelativePath(path)),
        },
        Err(failure) => Err(failure),
    }
}

/// Whether what was returned is what the specification asks for.
pub open spec fn prepared_as(
    wanted: Result<ConnectionView, PrepareFailure>,
    got: Result<ConnectionData, Failure>,
) -> bool {
    match wanted {
        Ok(view) => got matches Ok(data) && data@ == view,
        Err(PrepareFailure::BadPattern) => got matches Err(
            Failure::Connection(ConnectionError::Regex(_)),
        ),
        Err(PrepareFailure::UnknownScope(scope)) => got matches Err(
            Failure::Cli(CliError::ScopeNotFound(name)),
        ) && name@ == scope,
        Err(PrepareFailure::NoUser) => got matches Err(
            Failure::Connection(ConnectionError::UserRequired),
        ),
        Err(PrepareFailure::RelativePath(path)) => got matches Err(
            Failure::Connection(ConnectionError::RelativePath(p)),
        ) && p@ == path,
    }
}

/// Prepares the connection that a typed reference stands for while
/// `current_scope` is the active scope.
pub fn connection_for(
    uri: ServerUri,
    flags: Scope,
    config: Config,
    current_scope: &str,
    env: &Environment,
    engine: &EngineDefaults,
) -> (data: Result<ConnectionData, Failure>)
    ensures
        prepared_as(prepared(uri@, flags@, config@, current_scope@, env@, engine@), data),
{
    let mut uri = uri;
    let server = match resolve_server(uri.address.as_str(), &config, current_scope) {
        Ok(Some(server)) => server,
        Ok(None) => Server::from_uri_address(&mut uri),
        Err(failure) => {
            return Err(failure);
        },
    };
    let default = match config.default {
        Some(scope) => scope,
        None => Scope::default(),
    };
    match ConnectionData::new(uri, flags, server, default, env, engine) {
        Ok(data) => Ok(data),
        Err(failure) => Err(Failure::Connection(failure)),
    }
}

/// A reference `user@host:port` for which nothing is configured stands for
/// the connection to that host, as that user, on that port, with the
/// default for every other parameter.
pub proof fn lemma_unconfigured_reference(
    user: Seq<char>,
    host: Seq<char>,
    port: u16,
    current: Seq<char>,
    env: EnvironmentView,
    engine: EngineView,
)
    requires
        !user.contains('@'),
        !host.contains('@'),
    ensures
        prepared(
            parse_uri(written(user, host, port)),
            ScopeView::empty(),
            ConfigView { default: None, scopes: Seq::empty(), servers: Seq::empty() },
            current,
            env,
            engine,
        ) == Ok::<ConnectionView, PrepareFailure>(
            ConnectionView {
                address: host,
                user,
                port,
                known_hosts: joined(env.work_dir, "known_hosts"@),
                private_key: None,
                openssh_cert: None,
                kex: engine.kex,
                alg: engine.alg,
                cipher: engine.cipher,
                mac: engine.mac,
                timeout: None,
                interval: None,
                retries: engine.retries,
            },
        ),
{
    lemma_written_reference_reads_back(user, host, port);
    lemma_empty_configuration_finds_nothing(host, current);
}

} // verus!
