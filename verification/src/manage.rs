use crate::config::{
    entry_views, scope_views, scoped_views, Config, ConfigView, Scope, ScopeView, ScopedServer,
    ScopedServerView, Server, ServerEntry, ServerEntryView, ServerView,
};
use crate::context::Context;
use crate::error::{CliError, CliErrorView};
use crate::output::LsResult;
use crate::resolve::{resolve, Resolution};
use crate::store::{
    has_name, lemma_place_by_names, lemma_place_of, place_of, scope_entries, scoped_entries,
    scoped_get, scoped_insert, scoped_len, scoped_new, scoped_sort, scoped_swap_remove,
    scopes_get, scopes_insert, scopes_new, scopes_sort, scopes_swap_remove, server_entries,
    servers_at_mut, servers_get, servers_get_mut, servers_insert, servers_len, servers_new,
    servers_sort, servers_swap_remove, sorting_of, swap_removed,
};
use crate::text::same_text;
use vstd::prelude::*;

verus! {

/// The entry that stands for a server in a list: its address alone where
/// it sets no attribute, else the whole server.
pub open spec fn scoped_of(server: ServerView) -> ScopedServerView {
    if server.scope == ScopeView::empty() {
        ScopedServerView::Address(server.address)
    } else {
        ScopedServerView::Override(server)
    }
}

impl ConfigView {
    /// The configuration with a further scope. A scope of that name must
    /// not be there yet.
    pub open spec fn add_scope(self, name: Seq<char>, scope: ScopeView) -> Result<
        ConfigView,
        CliErrorView,
    > {
        if has_name(self.scopes, name) {
            Err(CliErrorView::ScopeExists(name))
        } else {
            Ok(ConfigView { scopes: self.scopes.push((name, scope)), ..self })
        }
    }

    /// The configuration with a further global server. Nothing must stand
    /// under that name yet, neither a server nor the servers of a scope.
    pub open spec fn add_global_server(self, name: Seq<char>, server: ServerView) -> Result<
        ConfigView,
        CliErrorView,
    > {
        match place_of(self.servers, name) {
            Some(i) => match self.servers[i].1 {
                ServerEntryView::Global(_) => Err(CliErrorView::ServerExists(name)),
                ServerEntryView::Scope(_) => Err(CliErrorView::ScopeExists(name)),
            },
            None => Ok(
                ConfigView {
                    servers: self.servers.push(
                        (name, ServerEntryView::Global(scoped_of(server))),
                    ),
                    ..self
                },
            ),
        }
    }

    /// The configuration with a further server of the scope `current`. The
    /// scope must not list a server of that name yet. Where it lists no
    /// servers yet, the scope must be known, and the list begins with this
    /// server under the scope's name.
    pub open spec fn add_scoped_server(
        self,
        name: Seq<char>,
        server: ServerView,
        current: Seq<char>,
    ) -> Result<ConfigView, CliErrorView> {
        let begun = ServerEntryView::Scope(seq![(name, scoped_of(server))]);
        match place_of(self.servers, current) {
            Some(i) => match self.servers[i].1 {
                ServerEntryView::Scope(list) => if has_name(list, name) {
                    Err(CliErrorView::ServerExists(name))
                } else {
                    Ok(
                        ConfigView {
                            servers: self.servers.update(
                                i,
                                (
                                    self.servers[i].0,
                                    ServerEntryView::Scope(list.push((name, scoped_of(server)))),
                                ),
                            ),
                            ..self
                        },
                    )
                },
                ServerEntryView::Global(_) => if has_name(self.scopes, current) {
                    Ok(ConfigView { servers: self.servers.update(i, (current, begun)), ..self })
                } else {
                    Err(CliErrorView::ScopeNotFound(current))
                },
            },
            None => if has_name(self.scopes, current) {
                Ok(ConfigView { servers: self.servers.push((current, begun)), ..self })
            } else {
                Err(CliErrorView::ScopeNotFound(current))
            },
        }
    }

    /// The configuration with a further server: a global one where that is
    /// asked for or no scope is active, else one of the active scope.
    pub open spec fn add_server(
        self,
        name: Seq<char>,
        server: ServerView,
        global: bool,
        current: Seq<char>,
    ) -> Result<ConfigView, CliErrorView> {
        if global || current.len() == 0 {
            self.add_global_server(name, server)
        } else {
            self.add_scoped_server(name, server, current)
        }
    }

    /// The configuration without the scope `name` and without the servers
    /// that it lists, and the active scope after that: none where the
    /// removed scope was the active one.
    pub open spec fn remove_scope(self, name: Seq<char>, active: Seq<char>) -> Result<
        (ConfigView, Seq<char>),
        CliErrorView,
    > {
        match place_of(self.scopes, name) {
            Some(i) => Ok(
                (
                    ConfigView {
                        scopes: swap_removed(self.scopes, i),
                        servers: match place_of(self.servers, name) {
                            Some(j) => swap_removed(self.servers, j),
                            None => self.servers,
                        },
                        ..self
                    },
                    if active == name {
                        Seq::empty()
                    } else {
                        active
                    },
                ),
            ),
            None => Err(CliErrorView::ScopeNotFound(name)),
        }
    }

    /// The configuration without the server `name`: without the top-level
    /// entry of that name where no scope is active, else without the server
    /// that the active scope lists under it. A scope whose last server
    /// leaves lists no servers any more.
    pub open spec fn remove_server(self, name: Seq<char>, active: Seq<char>) -> Result<
        (ConfigView, Seq<char>),
        CliErrorView,
    > {
        if active.len() == 0 {
            match place_of(self.servers, name) {
                Some(j) => Ok(
                    (ConfigView { servers: swap_removed(self.servers, j), ..self }, active),
                ),
                None => Err(CliErrorView::ServerNotFound(name)),
            }
        } else {
            match place_of(self.servers, active) {
                Some(i) => match self.servers[i].1 {
                    ServerEntryView::Scope(list) => match place_of(list, name) {
                        Some(k) => Ok(
                            (
                                ConfigView {
                                    servers: if list.len() == 1 {
                                        swap_removed(self.servers, i)
                                    } else {
                                        self.servers.update(
                                            i,
                                            (
                                                self.servers[i].0,
                                                ServerEntryView::Scope(swap_removed(list, k)),
                                            ),
                                        )
                                    },
                                    ..self
                                },
                                active,
                            ),
                        ),
                        None => Err(CliErrorView::ServerNotFound(name)),
                    },
                    ServerEntryView::Global(_) => Err(CliErrorView::ServerNotFound(name)),
                },
                None => Err(CliErrorView::ServerNotFound(name)),
            }
        }
    }

    /// The configuration after a removal: of the scope where one is named,
    /// else of the server.
    pub open spec fn remove(
        self,
        server: Option<Seq<char>>,
        scope: Option<Seq<char>>,
        active: Seq<char>,
    ) -> Result<(ConfigView, Seq<char>), CliErrorView> {
        match scope {
            Some(name) => self.remove_scope(name, active),
            None => self.remove_server(server->0, active),
        }
    }
}

/// Whether a result agrees with what the specification asks for.
pub open spec fn agrees(
    wanted: Result<ConfigView, CliErrorView>,
    got: Result<Config, CliError>,
) -> bool {
    match wanted {
        Ok(view) => got matches Ok(config) && config@ == view,
        Err(error) => got matches Err(e) && e@ == error,
    }
}

impl Default for Config {
    fn default() -> (config: Config)
        ensures
            config@ == (ConfigView { default: None, scopes: Seq::empty(), servers: Seq::empty() }),
    {
        let config = Config { default: None, scopes: scopes_new(), servers: servers_new() };
        assert(config@.scopes =~= Seq::empty());
        assert(config@.servers =~= Seq::empty());
        config
    }
}

impl Config {
    /// Whether the configuration has a scope of that name.
    pub fn check_scope(&self, scope: &str) -> (known: bool)
        ensures
            known == has_name(self@.scopes, scope@),
    {
        proof {
            lemma_place_by_names(
                scope_entries(self.scopes),
                scope_views(scope_entries(self.scopes)),
                scope@,
            );
        }
        scopes_get(&self.scopes, scope).is_some()
    }

    /// Makes `scope` the active scope. Fails with `ScopeNotFound` where the
    /// configuration has no scope of that name; the active scope then stays
    /// as it was.
    pub fn select_scope(&self, context: Context, scope: String) -> (selected: Result<
        Context,
        CliError,
    >)
        ensures
            match selected {
                Ok(changed) => has_name(self@.scopes, scope@) && changed@ == scope@,
                Err(error) => !has_name(self@.scopes, scope@) && error@
                    == CliErrorView::ScopeNotFound(scope@),
            },
    {
        if self.check_scope(scope.as_str()) {
            Ok(context.change_scope(Some(scope)))
        } else {
            Err(CliError::ScopeNotFound(scope))
        }
    }

    /// Adds a scope. Fails with `ScopeExists` where a scope has that name
    /// already.
    pub fn add_scope(self, name: String, scope: Scope) -> (changed: Result<Config, CliError>)
        ensures
            agrees(self@.add_scope(name@, scope@), changed),
    {
        let mut config = self;
        if config.check_scope(name.as_str()) {
            return Err(CliError::ScopeExists(name));
        }
        proof {
            lemma_place_by_names(
                scope_entries(config.scopes),
                scope_views(scope_entries(config.scopes)),
                name@,
            );
        }
        scopes_insert(&mut config.scopes, name, scope);
        assert(config@.scopes =~= self@.scopes.push((name@, scope@)));
        Ok(config)
    }

    /// Sets the global defaults.
    pub fn set_default(self, scope: Scope) -> (changed: Result<Config, CliError>)
        ensures
            changed matches Ok(config) && config@ == (ConfigView {
                default: Some(scope@),
                ..self@
            }),
    {
        let mut config = self;
        config.default = Some(scope);
        Ok(config)
    }

    /// Adds a global server. Fails with `ServerExists` where a global
    /// server has that name already, and with `ScopeExists` where the
    /// servers of a scope stand under it.
    pub fn add_global_server(&mut self, name: String, server: Server) -> (added: Result<
        (),
        CliError,
    >)
        ensures
            match old(self)@.add_global_server(name@, server@) {
                Ok(view) => added is Ok && final(self)@ == view,
                Err(error) => added matches Err(e) && e@ == error && *final(self) == *old(self),
            },
    {
        proof {
            lemma_place_by_names(
                server_entries(self.servers),
                entry_views(server_entries(self.servers)),
                name@,
            );
            lemma_place_of(server_entries(self.servers), name@);
        }
        match servers_get(&self.servers, name.as_str()) {
            Some(ServerEntry::Global(_)) => {
                return Err(CliError::ServerExists(name));
            },
            Some(ServerEntry::Scope(_)) => {
                return Err(CliError::ScopeExists(name));
            },
            None => {},
        }
        let entry = ServerEntry::Global(ScopedServer::from_server(server));
        servers_insert(&mut self.servers, name, entry);
        assert(final(self)@.servers =~= old(self)@.servers.push((name@, entry@)));
        Ok(())
    }

    /// Adds a server of the scope `current_scope`.
    fn add_scoped_server(&mut self, name: String, server: Server, current_scope: &str) -> (added:
        Result<(), CliError>)
        ensures
            match old(self)@.add_scoped_server(name@, server@, current_scope@) {
                Ok(view) => added is Ok && final(self)@ == view,
                Err(error) => added matches Err(e) && e@ == error && *final(self) == *old(self),
            },
    {
        let ghost entries = server_entries(self.servers);
        proof {
            lemma_place_by_names(entries, entry_views(entries), current_scope@);
            lemma_place_of(entries, current_scope@);
            lemma_place_by_names(
                scope_entries(self.scopes),
                scope_views(scope_entries(self.scopes)),
                current_scope@,
            );
        }
        let listed = match servers_get(&self.servers, current_scope) {
            Some(ServerEntry::Scope(list)) => {
                proof {
                    lemma_place_by_names(
                        scoped_entries(*list),
                        scoped_views(scoped_entries(*list)),
                        name@,
                    );
                }
                if scoped_get(list, name.as_str()).is_some() {
                    return Err(CliError::ServerExists(name));
                }
                true
            },
            _ => false,
        };
        let scoped = ScopedServer::from_server(server);
        if listed {
            let ghost place = place_of(entries, current_scope@)->0;
            match servers_get_mut(&mut self.servers, current_scope) {
                Some(ServerEntry::Scope(list)) => {
                    let ghost before = scoped_entries(*list);
                    proof {
                        lemma_place_by_names(before, scoped_views(before), name@);
                    }
                    scoped_insert(list, name, scoped);
                    assert(scoped_views(scoped_entries(*list)) =~= scoped_views(before).push(
                        (name@, scoped@),
                    ));
                },
                _ => {},
            }
            assert(final(self)@.servers =~= old(self)@.servers.update(
                place,
                (
                    old(self)@.servers[place].0,
                    ServerEntryView::Scope(
                        old(self)@.servers[place].1->Scope_0.push((name@, scoped@)),
                    ),
                ),
            ));
            Ok(())
        } else {
            if !self.check_scope(current_scope) {
                return Err(CliError::ScopeNotFound(current_scope.to_owned()));
            }
            let mut list = scoped_new();
            proof {
                lemma_place_of(scoped_entries(list), name@);
            }
            scoped_insert(&mut list, name, scoped);
            assert(scoped_views(scoped_entries(list)) =~= seq![(name@, scoped@)]);
            let entry = ServerEntry::Scope(list);
            servers_insert(&mut self.servers, current_scope.to_owned(), entry);
            proof {
                match place_of(entries, current_scope@) {
                    Some(i) => {
                        assert(final(self)@.servers =~= old(self)@.servers.update(
                            i,
                            (current_scope@, entry@),
                        ));
                    },
                    None => {
                        assert(final(self)@.servers =~= old(self)@.servers.push(
                            (current_scope@, entry@),
                        ));
                    },
                }
            }
            Ok(())
        }
    }

    /// Adds a server under `name`: a global one where `global` is set or
    /// no scope is active, else one of the active scope `current_scope`.
    /// Fails with `ServerExists` where the name is taken, with
    /// `ScopeExists` where a global server would take the name of a
    /// scope's servers, and with `ScopeNotFound` where the active scope is
    /// not in the configuration.
    pub fn add_server(
        self,
        name: String,
        server: Server,
        global: bool,
        current_scope: &str,
    ) -> (changed: Result<Config, CliError>)
        ensures
            agrees(self@.add_server(name@, server@, global, current_scope@), changed),
    {
        let mut config = self;
        let added = if global || current_scope.is_empty() {
            config.add_global_server(name, server)
        } else {
            config.add_scoped_server(name, server, current_scope)
        };
        match added {
            Ok(()) => Ok(config),
            Err(error) => Err(error),
        }
    }
}

/// Whether `sorted` is `given` with its list of servers, where it has
/// one, in the ascending order of their names.
pub open spec fn entry_sorting(sorted: ServerEntry, given: ServerEntry) -> bool {
    match (sorted, given) {
        (ServerEntry::Global(a), ServerEntry::Global(b)) => a == b,
        (ServerEntry::Scope(a), ServerEntry::Scope(b)) => sorting_of(
            scoped_entries(a),
            scoped_entries(b),
        ),
        _ => false,
    }
}

/// Whether `sorted` holds the entries of `middle` in their places, names
/// and all, the list of servers of each in the ascending order of their
/// names.
pub open spec fn lists_sorted(
    sorted: Seq<(Seq<char>, ServerEntry)>,
    middle: Seq<(Seq<char>, ServerEntry)>,
) -> bool {
    &&& sorted.len() == middle.len()
    &&& forall|i: int|
        0 <= i < sorted.len() ==> (#[trigger] sorted[i]).0 == middle[i].0 && entry_sorting(
            sorted[i].1,
            middle[i].1,
        )
}

/// Whether `sorted` holds the entries of `given` in the ascending order
/// of their names, and the servers of each scope in the ascending order of
/// theirs.
pub open spec fn deep_sorting(
    sorted: Seq<(Seq<char>, ServerEntry)>,
    given: Seq<(Seq<char>, ServerEntry)>,
) -> bool {
    exists|middle: Seq<(Seq<char>, ServerEntry)>|
        sorting_of(middle, given) && lists_sorted(sorted, middle)
}

impl Config {
    /// Removes a scope with the servers that it lists, or a server. A scope
    /// is removed where `scope` names one; where it was the active scope,
    /// no scope is active afterwards. Else the server `server` is removed:
    /// the top-level entry of that name where no scope is active, else the
    /// server of that name in the active scope. Fails with `ScopeNotFound`
    /// or `ServerNotFound` where there is nothing of that name to remove.
    pub fn remove(
        self,
        server: Option<String>,
        scope: Option<String>,
        context: Context,
    ) -> (changed: Result<(Config, Context), CliError>)
        requires
            scope is Some || server is Some,
        ensures
            match self@.remove(server.deep_view(), scope.deep_view(), context@) {
                Ok((view, active)) => changed matches Ok((config, after)) && config@ == view
                    && after@ == active,
                Err(error) => changed matches Err(e) && e@ == error,
            },
    {
        let mut config = self;
        let ghost scopes = scope_entries(config.scopes);
        let ghost entries = server_entries(config.servers);
        match scope {
            Some(name) => {
                proof {
                    lemma_place_by_names(scopes, scope_views(scopes), name@);
                    lemma_place_by_names(entries, entry_views(entries), name@);
                    lemma_place_of(scopes, name@);
                    lemma_place_of(entries, name@);
                }
                if scopes_swap_remove(&mut config.scopes, name.as_str()).is_none() {
                    return Err(CliError::ScopeNotFound(name));
                }
                servers_swap_remove(&mut config.servers, name.as_str());
                proof {
                    let i = place_of(scopes, name@)->0;
                    assert(config@.scopes =~= swap_removed(self@.scopes, i));
                    if place_of(entries, name@) is Some {
                        let j = place_of(entries, name@)->0;
                        assert(config@.servers =~= swap_removed(self@.servers, j));
                    }
                }
                let after = if same_text(context.scope(), name.as_str()) {
                    context.change_scope(None)
                } else {
                    context
                };
                Ok((config, after))
            },
            None => {
                let name = server.unwrap();
                if context.is_global() {
                    proof {
                        lemma_place_by_names(entries, entry_views(entries), name@);
                        lemma_place_of(entries, name@);
                    }
                    if servers_swap_remove(&mut config.servers, name.as_str()).is_none() {
                        return Err(CliError::ServerNotFound(name));
                    }
                    proof {
                        let j = place_of(entries, name@)->0;
                        assert(config@.servers =~= swap_removed(self@.servers, j));
                    }
                    return Ok((config, context));
                }
                let active = context.scope();
                proof {
                    lemma_place_by_names(entries, entry_views(entries), active@);
                    lemma_place_of(entries, active@);
                }
                let mut left: usize = 0;
                match servers_get_mut(&mut config.servers, active) {
                    Some(ServerEntry::Scope(list)) => {
                        let ghost before = scoped_entries(*list);
                        proof {
                            lemma_place_by_names(before, scoped_views(before), name@);
                            lemma_place_of(before, name@);
                        }
                        if scoped_swap_remove(list, name.as_str()).is_none() {
                            return Err(CliError::ServerNotFound(name));
                        }
                        left = scoped_len(list);
                        proof {
                            let k = place_of(before, name@)->0;
                            assert(scoped_views(scoped_entries(*list)) =~= swap_removed(
                                scoped_views(before),
                                k,
                            ));
                        }
                    },
                    _ => {
                        return Err(CliError::ServerNotFound(name));
                    },
                }
                let ghost place = place_of(entries, active@)->0;
                let ghost changed = server_entries(config.servers);
                proof {
                    assert(changed.len() == entries.len());
                    assert(changed[place].0 == active@);
                    assert forall|j: int| 0 <= j < place implies changed[j].0 != active@ by {
                        assert(changed[j] == entries[j]);
                    }
                    crate::store::lemma_place_is(changed, active@, place);
                }
                if left == 0 {
                    servers_swap_remove(&mut config.servers, active);
                    assert(config@.servers =~= swap_removed(self@.servers, place));
                } else {
                    assert(config@.servers =~= self@.servers.update(
                        place,
                        (
                            self@.servers[place].0,
                            ServerEntryView::Scope(
                                swap_removed(
                                    self@.servers[place].1->Scope_0,
                                    place_of(self@.servers[place].1->Scope_0, name@)->0,
                                ),
                            ),
                        ),
                    ));
                }
                Ok((config, context))
            },
        }
    }

    /// Puts the top-level entries in the ascending order of their names,
    /// and the servers of each scope in the ascending order of theirs.
    pub fn sort_servers(&mut self)
        ensures
            deep_sorting(server_entries(final(self).servers), server_entries(old(self).servers)),
            final(self).default == old(self).default,
            final(self).scopes == old(self).scopes,
    {
        servers_sort(&mut self.servers);
        let ghost middle = server_entries(self.servers);
        let count = servers_len(&self.servers);
        let mut i: usize = 0;
        while i < count
            invariant
                i <= count == middle.len(),
                server_entries(self.servers).len() == middle.len(),
                self.default == old(self).default,
                self.scopes == old(self).scopes,
                forall|j: int|
                    0 <= j < i ==> (#[trigger] server_entries(self.servers)[j]).0 == middle[j].0
                        && entry_sorting(server_entries(self.servers)[j].1, middle[j].1),
                forall|j: int|
                    i <= j < count ==> #[trigger] server_entries(self.servers)[j] == middle[j],
            decreases count - i,
        {
            let ghost before = server_entries(self.servers);
            match servers_at_mut(&mut self.servers, i) {
                Some(ServerEntry::Scope(list)) => {
                    scoped_sort(list);
                },
                _ => {},
            }
            proof {
                let after = server_entries(self.servers);
                assert forall|j: int| 0 <= j < i + 1 implies (#[trigger] after[j]).0 == middle[j].0
                    && entry_sorting(after[j].1, middle[j].1) by {
                    if j < i {
                        assert(after[j] == before[j]);
                    } else {
                        assert(before[j] == middle[j]);
                    }
                }
                assert forall|j: int| i + 1 <= j < count implies #[trigger] after[j]
                    == middle[j] by {
                    assert(after[j] == before[j]);
                }
            }
            i = i + 1;
        }
        assert(lists_sorted(server_entries(self.servers), middle));
    }

    /// Takes out of the configuration what a listing shows, in the
    /// ascending order of the names: everything where `all` is set; the
    /// scopes alone where `scopes` is set; else the servers of the active
    /// scope where the configuration has that scope, and everything where
    /// it has not. What is taken is no longer in the configuration.
    pub fn list(&mut self, current_scope: String, all: bool, scopes: bool) -> (listing: Result<
        LsResult,
        CliError,
    >)
        ensures
            final(self).lists(*old(self), current_scope@, all, scopes, listing),
    {
        proof {
            lemma_place_by_names(
                scope_entries(self.scopes),
                scope_views(scope_entries(self.scopes)),
                current_scope@,
            );
        }
        if all || (!scopes && !self.check_scope(current_scope.as_str())) {
            self.sort_servers();
            let mut taken = servers_new();
            core::mem::swap(&mut self.servers, &mut taken);
            return Ok(LsResult::All(taken));
        }
        if scopes {
            scopes_sort(&mut self.scopes);
            let mut taken = scopes_new();
            core::mem::swap(&mut self.scopes, &mut taken);
            let mut default: Option<Scope> = None;
            core::mem::swap(&mut self.default, &mut default);
            return Ok(LsResult::AllScopes(default, taken));
        }
        let mut taken = scoped_new();
        let ghost entries = server_entries(self.servers);
        proof {
            lemma_place_of(entries, current_scope@);
        }
        match servers_get_mut(&mut self.servers, current_scope.as_str()) {
            Some(ServerEntry::Scope(list)) => {
                scoped_sort(list);
                core::mem::swap(list, &mut taken);
            },
            _ => {},
        }
        assert(server_entries(self.servers).len() == entries.len());
        proof {
            match place_of(entries, current_scope@) {
                Some(i) => {
                    if entries[i].1 is Global {
                        assert(server_entries(self.servers) =~= entries);
                    }
                },
                None => {},
            }
        }
        Ok(LsResult::Scope(current_scope, taken))
    }

    /// Whether `self` and `listing` are what a listing leaves of `before`
    /// and what it hands out.
    pub open spec fn lists(
        self,
        before: Config,
        current: Seq<char>,
        all: bool,
        scopes: bool,
        listing: Result<LsResult, CliError>,
    ) -> bool {
        if all || (!scopes && !has_name(scope_entries(before.scopes), current)) {
            &&& listing matches Ok(LsResult::All(servers))
            &&& deep_sorting(server_entries(servers), server_entries(before.servers))
            &&& server_entries(self.servers).len() == 0
            &&& self.scopes == before.scopes
            &&& self.default == before.default
        } else if scopes {
            &&& listing matches Ok(LsResult::AllScopes(default, taken))
            &&& default == before.default
            &&& sorting_of(scope_entries(taken), scope_entries(before.scopes))
            &&& self.default is None
            &&& scope_entries(self.scopes).len() == 0
            &&& self.servers == before.servers
        } else {
            &&& listing matches Ok(LsResult::Scope(name, taken))
            &&& name@ == current
            &&& self.scopes == before.scopes
            &&& self.default == before.default
            &&& match place_of(server_entries(before.servers), current) {
                Some(i) => match server_entries(before.servers)[i].1 {
                    ServerEntry::Scope(list) => {
                        &&& sorting_of(scoped_entries(taken), scoped_entries(list))
                        &&& server_entries(self.servers).len() == server_entries(
                            before.servers,
                        ).len()
                        &&& forall|j: int|
                            0 <= j < server_entries(self.servers).len() && j != i
                                ==> #[trigger] server_entries(self.servers)[j] == server_entries(
                                before.servers,
                            )[j]
                        &&& server_entries(self.servers)[i].0 == current
                        &&& server_entries(self.servers)[i].1 matches ServerEntry::Scope(left)
                        &&& scoped_entries(left).len() == 0
                    },
                    ServerEntry::Global(_) => scoped_entries(taken).len() == 0
                        && server_entries(self.servers) == server_entries(before.servers),
                },
                None => scoped_entries(taken).len() == 0 && server_entries(self.servers)
                    == server_entries(before.servers),
            }
        }
    }
}

/// Whether no two entries have the same name.
pub open spec fn distinct_names<V>(entries: Seq<(Seq<char>, V)>) -> bool {
    forall|i: int, j: int|
        0 <= i < j < entries.len() ==> (#[trigger] entries[i]).0 != (#[trigger] entries[j]).0
}

impl ConfigView {
    /// Whether the servers of the entry at `place` are those of a scope
    /// that the configuration has, each under a name of its own.
    pub open spec fn listed_well(self, place: int) -> bool {
        self.servers[place].1 matches ServerEntryView::Scope(list) ==> has_name(
            self.scopes,
            self.servers[place].0,
        ) && distinct_names(list)
    }

    /// Whether the configuration is one that its own commands leave
    /// behind: every name stands once where it stands, and every scope that
    /// lists servers is a scope of the configuration.
    pub open spec fn valid(self) -> bool {
        &&& distinct_names(self.scopes)
        &&& distinct_names(self.servers)
        &&& forall|i: int| 0 <= i < self.servers.len() ==> self.listed_well(i)
    }
}

/// A further entry under a new name keeps the names distinct.
proof fn lemma_push_distinct<V>(entries: Seq<(Seq<char>, V)>, name: Seq<char>, value: V)
    requires
        distinct_names(entries),
        !has_name(entries, name),
    ensures
        distinct_names(entries.push((name, value))),
{
    let longer = entries.push((name, value));
    assert forall|i: int, j: int| 0 <= i < j < longer.len() implies (#[trigger] longer[i]).0 != (
    #[trigger] longer[j]).0 by {
        if j < entries.len() {
            assert(longer[i] == entries[i] && longer[j] == entries[j]);
        } else {
            assert(longer[i] == entries[i]);
            assert(entries[i].0 != name);
        }
    }
}

/// The entries that are left when one leaves keep their names distinct, and
/// each was there before.
proof fn lemma_swap_removed_distinct<V>(entries: Seq<(Seq<char>, V)>, place: int)
    requires
        distinct_names(entries),
        0 <= place < entries.len(),
    ensures
        distinct_names(swap_removed(entries, place)),
        forall|i: int|
            0 <= i < swap_removed(entries, place).len() ==> exists|k: int|
                0 <= k < entries.len() && k != place && #[trigger] swap_removed(entries, place)[i]
                    == entries[k],
{
    let left = swap_removed(entries, place);
    let last = entries.len() - 1;
    assert forall|i: int| 0 <= i < left.len() implies exists|k: int|
        0 <= k < entries.len() && k != place && #[trigger] left[i] == entries[k] by {
        if i == place {
            assert(left[i] == entries[last]);
        } else {
            assert(left[i] == entries[i]);
        }
    }
    assert forall|i: int, j: int| 0 <= i < j < left.len() implies (#[trigger] left[i]).0 != (
    #[trigger] left[j]).0 by {
        let a = if i == place {
            last
        } else {
            i
        };
        let b = if j == place {
            last
        } else {
            j
        };
        assert(left[i] == entries[a] && left[j] == entries[b]);
        if a < b {
            assert(entries[a].0 != entries[b].0);
        } else {
            assert(entries[b].0 != entries[a].0);
        }
    }
}

/// A valid configuration stays valid where a scope is added, and where
/// the defaults are set.
pub proof fn lemma_add_scope_keeps_valid(config: ConfigView, name: Seq<char>, scope: ScopeView)
    requires
        config.valid(),
    ensures
        config.add_scope(name, scope) matches Ok(changed) ==> changed.valid(),
        (ConfigView { default: Some(scope), ..config }).valid(),
{
    if let Ok(changed) = config.add_scope(name, scope) {
        lemma_push_distinct(config.scopes, name, scope);
        assert forall|i: int| 0 <= i < changed.servers.len() implies changed.listed_well(i) by {
            assert(config.listed_well(i));
            if config.servers[i].1 is Scope {
                let k = choose|k: int|
                    0 <= k < config.scopes.len() && config.scopes[k].0 == config.servers[i].0;
                assert(changed.scopes[k] == config.scopes[k]);
            }
        }
    }
    let set = ConfigView { default: Some(scope), ..config };
    assert forall|i: int| 0 <= i < set.servers.len() implies set.listed_well(i) by {
        assert(config.listed_well(i));
    }
}

/// A valid configuration stays valid where a server is added.
pub proof fn lemma_add_server_keeps_valid(
    config: ConfigView,
    name: Seq<char>,
    server: ServerView,
    global: bool,
    current: Seq<char>,
)
    requires
        config.valid(),
    ensures
        config.add_server(name, server, global, current) matches Ok(changed) ==> changed.valid(),
{
    if let Ok(changed) = config.add_server(name, server, global, current) {
        lemma_place_of(config.servers, name);
        lemma_place_of(config.servers, current);
        if global || current.len() == 0 {
            let entry = ServerEntryView::Global(scoped_of(server));
            assert(!has_name(config.servers, name));
            lemma_push_distinct(config.servers, name, entry);
            assert forall|i: int| 0 <= i < changed.servers.len() implies changed.listed_well(
                i,
            ) by {
                if i < config.servers.len() {
                    assert(config.listed_well(i));
                    assert(changed.servers[i] == config.servers[i]);
                }
            }
        } else {
            let one = (name, scoped_of(server));
            match place_of(config.servers, current) {
                Some(p) => {
                    assert(changed.servers.len() == config.servers.len());
                    assert(changed.servers[p].0 == current);
                    assert(config.servers[p].0 == current);
                    assert forall|i: int, j: int|
                        0 <= i < j < changed.servers.len() implies (#[trigger] changed.servers[i]).0
                        != (#[trigger] changed.servers[j]).0 by {
                        assert(changed.servers[i].0 == config.servers[i].0);
                        assert(changed.servers[j].0 == config.servers[j].0);
                    }
                    assert forall|i: int| 0 <= i < changed.servers.len() implies changed.listed_well(
                        i,
                    ) by {
                        assert(config.listed_well(i));
                        if i == p {
                            match config.servers[p].1 {
                                ServerEntryView::Scope(list) => {
                                    lemma_push_distinct(list, name, scoped_of(server));
                                },
                                ServerEntryView::Global(_) => {
                                    assert(distinct_names(seq![one]));
                                },
                            }
                        } else {
                            assert(changed.servers[i] == config.servers[i]);
                        }
                    }
                },
                None => {
                    let entry = ServerEntryView::Scope(seq![one]);
                    assert(!has_name(config.servers, current));
                    lemma_push_distinct(config.servers, current, entry);
                    assert forall|i: int| 0 <= i < changed.servers.len() implies changed.listed_well(
                        i,
                    ) by {
                        if i < config.servers.len() {
                            assert(config.listed_well(i));
                            assert(changed.servers[i] == config.servers[i]);
                        } else {
                            assert(distinct_names(seq![one]));
                        }
                    }
                },
            }
        }
    }
}

/// A valid configuration stays valid where a scope or a server is
/// removed.
pub proof fn lemma_remove_keeps_valid(
    config: ConfigView,
    server: Option<Seq<char>>,
    scope: Option<Seq<char>>,
    active: Seq<char>,
)
    requires
        config.valid(),
        scope is Some || server is Some,
    ensures
        config.remove(server, scope, active) matches Ok((changed, _)) ==> changed.valid(),
{
    if let Ok((changed, _)) = config.remove(server, scope, active) {
        match scope {
            Some(name) => {
                lemma_place_of(config.scopes, name);
                lemma_place_of(config.servers, name);
                let i = place_of(config.scopes, name)->0;
                lemma_swap_removed_distinct(config.scopes, i);
                if place_of(config.servers, name) is Some {
                    lemma_swap_removed_distinct(config.servers, place_of(config.servers, name)->0);
                }
                assert forall|q: int| 0 <= q < changed.servers.len() implies changed.listed_well(
                    q,
                ) by {
                    // the entry was there before, under another name than the scope
                    let k = if place_of(config.servers, name) is Some {
                        let j = place_of(config.servers, name)->0;
                        let k = choose|k: int|
                            0 <= k < config.servers.len() && k != j && changed.servers[q]
                                == config.servers[k];
                        if k < j {
                            assert(config.servers[k].0 != config.servers[j].0);
                        } else {
                            assert(config.servers[j].0 != config.servers[k].0);
                        }
                        k
                    } else {
                        q
                    };
                    assert(changed.servers[q] == config.servers[k]);
                    assert(config.servers[k].0 != name);
                    assert(config.listed_well(k));
                    if config.servers[k].1 is Scope {
                        // its scope is still there
                        let m = choose|m: int|
                            0 <= m < config.scopes.len() && config.scopes[m].0
                                == config.servers[k].0;
                        assert(m != i);
                        let last = config.scopes.len() - 1;
                        if m == last {
                            assert(changed.scopes[i] == config.scopes[m]);
                        } else {
                            assert(changed.scopes[m] == config.scopes[m]);
                        }
                    }
                }
            },
            None => {
                let name = server->0;
                lemma_place_of(config.servers, name);
                lemma_place_of(config.servers, active);
                if active.len() == 0 {
                    let j = place_of(config.servers, name)->0;
                    lemma_swap_removed_distinct(config.servers, j);
                    assert forall|q: int| 0 <= q < changed.servers.len() implies changed.listed_well(
                        q,
                    ) by {
                        let k = choose|k: int|
                            0 <= k < config.servers.len() && k != j && changed.servers[q]
                                == config.servers[k];
                        assert(config.listed_well(k));
                    }
                } else {
                    let p = place_of(config.servers, active)->0;
                    let list = config.servers[p].1->Scope_0;
                    lemma_place_of(list, name);
                    let k = place_of(list, name)->0;
                    assert(config.listed_well(p));
                    if list.len() == 1 {
                        lemma_swap_removed_distinct(config.servers, p);
                        assert forall|q: int|
                            0 <= q < changed.servers.len() implies changed.listed_well(q) by {
                            let k = choose|k: int|
                                0 <= k < config.servers.len() && k != p && changed.servers[q]
                                    == config.servers[k];
                            assert(config.listed_well(k));
                        }
                    } else {
                        lemma_swap_removed_distinct(list, k);
                        assert forall|i: int, j: int|
                            0 <= i < j < changed.servers.len() implies (
                        #[trigger] changed.servers[i]).0 != (#[trigger] changed.servers[j]).0 by {
                            assert(changed.servers[i].0 == config.servers[i].0);
                            assert(changed.servers[j].0 == config.servers[j].0);
                        }
                        assert forall|q: int|
                            0 <= q < changed.servers.len() implies changed.listed_well(q) by {
                            assert(config.listed_well(q));
                            if q != p {
                                assert(changed.servers[q] == config.servers[q]);
                            }
                        }
                    }
                }
            },
        }
    }
}

/// The configuration without entries is valid.
pub proof fn lemma_empty_configuration_is_valid()
    ensures
        (ConfigView { default: None, scopes: Seq::empty(), servers: Seq::empty() }).valid(),
{
}

/// In a valid configuration every scope that lists servers is known, so
/// that no resolution ends at a scope without attributes.
pub proof fn lemma_valid_configuration_resolves(
    config: ConfigView,
    host: Seq<char>,
    current: Seq<char>,
)
    requires
        config.valid(),
    ensures
        !(resolve(config, host, current) is UnknownScope),
{
    lemma_place_of(config.servers, current);
    if place_of(config.servers, current) is Some {
        let i = place_of(config.servers, current)->0;
        assert(config.listed_well(i));
    }
}

} // verus!
