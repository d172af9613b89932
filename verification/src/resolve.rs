use crate::config::{
    entry_views, scope_views, scoped_views, Config, ConfigView, ScopedServer, ScopedServerView,
    Server, ServerEntry, ServerEntryView, ServerView,
};
use crate::error::{CliError, ConnectionError, Failure};
use crate::pattern::{pattern_compiles, pattern_matches, try_match};
use crate::store::{
    first_named, lemma_place_by_names, lemma_place_is, lemma_place_of, place_of, scope_entries,
    scoped_at, scoped_entries, scoped_get, scoped_len, scopes_get, server_entries, servers_at,
    servers_get, servers_len,
};
use crate::text::substitute_host;
use indexmap::IndexMap;
use vstd::prelude::*;

verus! {

/// The server that an entry gives once its name has matched `host` as a
/// pattern: a bare address with `host` in the place of each `$h`, a server
/// with attributes of its own as it stands.
pub open spec fn instantiate(entry: ScopedServerView, host: Seq<char>) -> ServerView {
    match entry {
        ScopedServerView::Address(address) => ServerView::bare(substitute_host(address, host)),
        ScopedServerView::Override(server) => server,
    }
}

/// A name with the server that it may stand for as a pattern, if it stands
/// for one.
pub type Candidate = (Seq<char>, Option<ScopedServerView>);

/// Every server of a scope is a candidate.
pub open spec fn scoped_candidates(list: Seq<(Seq<char>, ScopedServerView)>) -> Seq<Candidate> {
    Seq::new(list.len(), |i: int| (list[i].0, Some(list[i].1)))
}

/// Of the top-level entries the global servers are candidates; the names of
/// scopes are passed over.
pub open spec fn global_candidates(servers: Seq<(Seq<char>, ServerEntryView)>) -> Seq<Candidate> {
    Seq::new(
        servers.len(),
        |i: int|
            (
                servers[i].0,
                match servers[i].1 {
                    ServerEntryView::Global(server) => Some(server),
                    ServerEntryView::Scope(_) => None,
                },
            ),
    )
}

/// Tries the names of the candidates from place `from` on, in order, as
/// patterns on `host`. The first name that does not compile ends the scan
/// with that name as the error; the first that matches ends it with its
/// server. `None` where neither happens.
pub open spec fn scan(candidates: Seq<Candidate>, host: Seq<char>, from: int) -> Option<
    Result<ServerView, Seq<char>>,
>
    decreases candidates.len() - from,
{
    if from < 0 || from >= candidates.len() {
        None
    } else {
        match candidates[from].1 {
            None => scan(candidates, host, from + 1),
            Some(entry) => if !pattern_compiles(candidates[from].0) {
                Some(Err(candidates[from].0))
            } else if pattern_matches(candidates[from].0, host) {
                Some(Ok(instantiate(entry, host)))
            } else {
                scan(candidates, host, from + 1)
            },
        }
    }
}

/// The search among the servers of one scope: the entry named `host` where
/// there is one, else the pattern scan.
pub open spec fn find_in_scope(list: Seq<(Seq<char>, ScopedServerView)>, host: Seq<char>) -> Option<
    Result<ServerView, Seq<char>>,
> {
    match place_of(list, host) {
        Some(i) => Some(Ok(list[i].1.server())),
        None => scan(scoped_candidates(list), host, 0),
    }
}

/// The search among the global servers: the global server named `host`
/// where there is one, else the pattern scan.
pub open spec fn find_global(servers: Seq<(Seq<char>, ServerEntryView)>, host: Seq<char>) -> Option<
    Result<ServerView, Seq<char>>,
> {
    match place_of(servers, host) {
        Some(i) => match servers[i].1 {
            ServerEntryView::Global(server) => Some(Ok(server.server())),
            ServerEntryView::Scope(_) => scan(global_candidates(servers), host, 0),
        },
        None => scan(global_candidates(servers), host, 0),
    }
}

/// The servers that the scope `name` lists, if the configuration has servers
/// under that name.
pub open spec fn servers_of_scope(config: ConfigView, name: Seq<char>) -> Option<
    Seq<(Seq<char>, ScopedServerView)>,
> {
    match place_of(config.servers, name) {
        Some(i) => match config.servers[i].1 {
            ServerEntryView::Scope(list) => Some(list),
            ServerEntryView::Global(_) => None,
        },
        None => None,
    }
}

/// How a resolution ends.
pub enum Resolution {
    /// The server that was found, merged with the scope that lists it.
    Found(ServerView),
    /// No entry stands for the host.
    NotFound,
    /// The configured name that is no regular expression.
    BadPattern(Seq<char>),
    /// The active scope lists the server, but the configuration has no
    /// attributes under the scope's name.
    UnknownScope,
}

/// What `host` resolves to in `config` while `current` is the active scope.
/// The servers of the active scope come first, and a server found there
/// is completed from the scope's attributes. The global servers come next.
pub open spec fn resolve(config: ConfigView, host: Seq<char>, current: Seq<char>) -> Resolution {
    let scoped = match servers_of_scope(config, current) {
        Some(list) => find_in_scope(list, host),
        None => None,
    };
    match scoped {
        Some(Err(name)) => Resolution::BadPattern(name),
        Some(Ok(server)) => match place_of(config.scopes, current) {
            Some(j) => Resolution::Found(
                ServerView {
                    address: server.address,
                    scope: server.scope.merge(config.scopes[j].1),
                },
            ),
            None => Resolution::UnknownScope,
        },
        None => match find_global(config.servers, host) {
            Some(Err(name)) => Resolution::BadPattern(name),
            Some(Ok(server)) => Resolution::Found(server),
            None => Resolution::NotFound,
        },
    }
}

/// What one candidate contributes to a scan, given what trying its name as
/// a pattern on `host` came to: the error where the name does not compile,
/// the entry's server where it matches, nothing where it does not match.
pub fn on_verdict(verdict: Result<bool, regex::Error>, entry: &ScopedServer, host: &str) -> (step:
    Option<Result<Server, ConnectionError>>)
    ensures
        match verdict {
            Err(error) => step matches Some(Err(ConnectionError::Regex(e))) && e == error,
            Ok(true) => step matches Some(Ok(server)) && server@ == instantiate(entry@, host@),
            Ok(false) => step is None,
        },
{
    match verdict {
        Err(error) => Some(Err(ConnectionError::Regex(error))),
        Ok(true) => {
            let server = match entry {
                ScopedServer::Address(address) => {
                    let mut server = Server::new(address.clone());
                    server.apply_host_placeholder(host);
                    server
                },
                ScopedServer::Override(server) => (**server).clone(),
            };
            Some(Ok(server))
        },
        Ok(false) => None,
    }
}

/// Whether what a search returned is what the specification of the search
/// asks for.
pub open spec fn search_agrees(
    wanted: Option<Result<ServerView, Seq<char>>>,
    got: Result<Option<Server>, ConnectionError>,
) -> bool {
    match wanted {
        Some(Ok(server)) => got matches Ok(Some(found)) && found@ == server,
        Some(Err(_)) => got matches Err(ConnectionError::Regex(_)),
        None => got matches Ok(None),
    }
}

/// The pattern scan over the servers of one scope.
fn scan_scoped(list: &IndexMap<String, ScopedServer>, host: &str) -> (got: Result<
    Option<Server>,
    ConnectionError,
>)
    ensures
        search_agrees(
            scan(scoped_candidates(scoped_views(scoped_entries(*list))), host@, 0),
            got,
        ),
{
    let ghost candidates = scoped_candidates(scoped_views(scoped_entries(*list)));
    let count = scoped_len(list);
    let mut i: usize = 0;
    while i < count
        invariant
            i <= count,
            count == scoped_entries(*list).len(),
            candidates == scoped_candidates(scoped_views(scoped_entries(*list))),
            scan(candidates, host@, 0) == scan(candidates, host@, i as int),
        decreases count - i,
    {
        if let Some((name, entry)) = scoped_at(list, i) {
            assert(candidates[i as int] == (name@, Some(entry@)));
            let verdict = try_match(name.as_str(), host);
            match on_verdict(verdict, entry, host) {
                Some(Ok(server)) => {
                    return Ok(Some(server));
                },
                Some(Err(error)) => {
                    return Err(error);
                },
                None => {},
            }
        }
        i = i + 1;
    }
    Ok(None)
}

/// The pattern scan over the global servers.
fn scan_global(servers: &IndexMap<String, ServerEntry>, host: &str) -> (got: Result<
    Option<Server>,
    ConnectionError,
>)
    ensures
        search_agrees(
            scan(global_candidates(entry_views(server_entries(*servers))), host@, 0),
            got,
        ),
{
    let ghost candidates = global_candidates(entry_views(server_entries(*servers)));
    let count = servers_len(servers);
    let mut i: usize = 0;
    while i < count
        invariant
            i <= count,
            count == server_entries(*servers).len(),
            candidates == global_candidates(entry_views(server_entries(*servers))),
            scan(candidates, host@, 0) == scan(candidates, host@, i as int),
        decreases count - i,
    {
        if let Some((name, ServerEntry::Global(entry))) = servers_at(servers, i) {
            assert(candidates[i as int] == (name@, Some(entry@)));
            let verdict = try_match(name.as_str(), host);
            match on_verdict(verdict, entry, host) {
                Some(Ok(server)) => {
                    return Ok(Some(server));
                },
                Some(Err(error)) => {
                    return Err(error);
                },
                None => {},
            }
        } else {
            assert(candidates[i as int].1 is None);
        }
        i = i + 1;
    }
    Ok(None)
}

/// The search among the servers of one scope.
fn search_scope(list: &IndexMap<String, ScopedServer>, host: &str) -> (got: Result<
    Option<Server>,
    ConnectionError,
>)
    ensures
        search_agrees(find_in_scope(scoped_views(scoped_entries(*list)), host@), got),
{
    proof {
        lemma_place_by_names(scoped_entries(*list), scoped_views(scoped_entries(*list)), host@);
    }
    let ghost entries = scoped_entries(*list);
    match scoped_get(list, host) {
        Some(entry) => {
            proof {
                let i = place_of(entries, host@).unwrap();
                lemma_place_of(entries, host@);
                assert(scoped_views(entries)[i].1 == entry@);
            }
            Ok(Some(entry.clone().into_server()))
        },
        None => scan_scoped(list, host),
    }
}

/// The search among the global servers.
fn search_global(servers: &IndexMap<String, ServerEntry>, host: &str) -> (got: Result<
    Option<Server>,
    ConnectionError,
>)
    ensures
        search_agrees(find_global(entry_views(server_entries(*servers)), host@), got),
{
    proof {
        lemma_place_by_names(
            server_entries(*servers),
            entry_views(server_entries(*servers)),
            host@,
        );
    }
    let ghost entries = server_entries(*servers);
    proof {
        lemma_place_of(entries, host@);
        if place_of(entries, host@) is Some {
            let i = place_of(entries, host@).unwrap();
            assert(entry_views(entries)[i].1 == entries[i].1@);
        }
    }
    if let Some(ServerEntry::Global(entry)) = servers_get(servers, host) {
        return Ok(Some(entry.clone().into_server()));
    }
    scan_global(servers, host)
}

/// Finds the server that `host` stands for while `current_scope` is the
/// active scope. `Ok(None)` means that the configuration has no entry for
/// it. A configured name that is tried as a pattern and is no regular
/// expression ends the search with the error of the pattern; a server of the
/// active scope whose scope has no attributes in the configuration ends it
/// with `ScopeNotFound`.
pub fn resolve_server(host: &str, config: &Config, current_scope: &str) -> (got: Result<
    Option<Server>,
    Failure,
>)
    ensures
        match resolve(config@, host@, current_scope@) {
            Resolution::Found(server) => got matches Ok(Some(found)) && found@ == server,
            Resolution::NotFound => got matches Ok(None),
            Resolution::BadPattern(_) => got matches Err(
                Failure::Connection(ConnectionError::Regex(_)),
            ),
            Resolution::UnknownScope => got matches Err(
                Failure::Cli(CliError::ScopeNotFound(name)),
            ) && name@ == current_scope@,
        },
{
    proof {
        lemma_place_by_names(
            server_entries(config.servers),
            entry_views(server_entries(config.servers)),
            current_scope@,
        );
        lemma_place_by_names(
            scope_entries(config.scopes),
            scope_views(scope_entries(config.scopes)),
            current_scope@,
        );
    }
    let ghost entries = server_entries(config.servers);
    let ghost scopes = scope_entries(config.scopes);
    proof {
        lemma_place_of(entries, current_scope@);
        lemma_place_of(scopes, current_scope@);
        if place_of(entries, current_scope@) is Some {
            let i = place_of(entries, current_scope@).unwrap();
            assert(entry_views(entries)[i].1 == entries[i].1@);
        }
        if place_of(scopes, current_scope@) is Some {
            let j = place_of(scopes, current_scope@).unwrap();
            assert(scope_views(scopes)[j].1 == scopes[j].1@);
        }
    }
    if let Some(ServerEntry::Scope(list)) = servers_get(&config.servers, current_scope) {
        assert(servers_of_scope(config@, current_scope@) == Some(
            scoped_views(scoped_entries(*list)),
        ));
        match search_scope(list, host) {
            Err(error) => {
                return Err(Failure::Connection(error));
            },
            Ok(Some(server)) => {
                let mut server = server;
                match scopes_get(&config.scopes, current_scope) {
                    Some(scope) => {
                        server.apply_scope(scope.clone());
                        return Ok(Some(server));
                    },
                    None => {
                        return Err(
                            Failure::Cli(CliError::ScopeNotFound(current_scope.to_owned())),
                        );
                    },
                }
            },
            Ok(None) => {},
        }
    }
    match search_global(&config.servers, host) {
        Ok(found) => Ok(found),
        Err(error) => Err(Failure::Connection(error)),
    }
}

/// An entry of the active scope whose name is the host itself is chosen,
/// whatever the names of the scope match as patterns: no pattern is tried.
pub proof fn lemma_exact_name_wins(
    config: ConfigView,
    host: Seq<char>,
    current: Seq<char>,
    list: Seq<(Seq<char>, ScopedServerView)>,
    place: int,
    scope: int,
)
    requires
        servers_of_scope(config, current) == Some(list),
        first_named(list, host, place),
        first_named(config.scopes, current, scope),
    ensures
        resolve(config, host, current) == Resolution::Found(
            ServerView {
                address: list[place].1.server().address,
                scope: list[place].1.server().scope.merge(config.scopes[scope].1),
            },
        ),
{
    lemma_place_is(list, host, place);
    lemma_place_is(config.scopes, current, scope);
}

/// Where the active scope lists no servers, a global server whose name is
/// the host itself is chosen as it stands, whatever the global names match
/// as patterns.
pub proof fn lemma_exact_global_name_wins(
    config: ConfigView,
    host: Seq<char>,
    current: Seq<char>,
    place: int,
    server: ScopedServerView,
)
    requires
        servers_of_scope(config, current) is None,
        first_named(config.servers, host, place),
        config.servers[place].1 == ServerEntryView::Global(server),
    ensures
        resolve(config, host, current) == Resolution::Found(server.server()),
{
    lemma_place_is(config.servers, host, place);
}

/// Where neither the active scope nor the global servers have an entry
/// that stands for the host, nothing is found.
pub proof fn lemma_empty_configuration_finds_nothing(host: Seq<char>, current: Seq<char>)
    ensures
        resolve(
            ConfigView { default: None, scopes: Seq::empty(), servers: Seq::empty() },
            host,
            current,
        ) == Resolution::NotFound,
{
    let config = ConfigView { default: None, scopes: Seq::empty(), servers: Seq::empty() };
    lemma_place_of(config.servers, current);
    lemma_place_of(config.servers, host);
    assert(global_candidates(config.servers).len() == 0);
}

/// Whether trying the candidate at `place` neither ends a scan nor fails
/// it: it stands for no server, or its name compiles and does not match.
pub open spec fn passed_by(candidates: Seq<Candidate>, host: Seq<char>, place: int) -> bool {
    candidates[place].1 is None || (pattern_compiles(candidates[place].0) && !pattern_matches(
        candidates[place].0,
        host,
    ))
}

/// A scan ends at the first candidate that it does not pass by: with the
/// server of that candidate where its name matches, and with its name as
/// the error where the name does not compile.
pub proof fn lemma_scan_ends_at_first(
    candidates: Seq<Candidate>,
    host: Seq<char>,
    from: int,
    place: int,
)
    requires
        0 <= from <= place < candidates.len(),
        forall|j: int| from <= j < place ==> passed_by(candidates, host, j),
        !passed_by(candidates, host, place),
    ensures
        scan(candidates, host, from) == (if pattern_compiles(candidates[place].0) {
            Some(Ok(instantiate(candidates[place].1->0, host)))
        } else {
            Some(Err(candidates[place].0))
        }),
    decreases place - from,
{
    if from < place {
        assert(passed_by(candidates, host, from));
        lemma_scan_ends_at_first(candidates, host, from + 1, place);
    }
}

/// A scan that passes by every candidate finds nothing.
pub proof fn lemma_scan_finds_nothing(candidates: Seq<Candidate>, host: Seq<char>, from: int)
    requires
        0 <= from,
        forall|j: int| from <= j < candidates.len() ==> passed_by(candidates, host, j),
    ensures
        scan(candidates, host, from) is None,
    decreases candidates.len() - from,
{
    if from < candidates.len() {
        assert(passed_by(candidates, host, from));
        lemma_scan_finds_nothing(candidates, host, from + 1);
    }
}

} // verus!
