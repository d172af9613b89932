use crate::data::ServerUri;
use crate::store::{scope_entries, scoped_entries, server_entries};
use crate::text::{
    copy_opt_names, copy_opt_text, same_opt_names, same_opt_text, substitute, substitute_host,
};
use core::ops::AddAssign;
use indexmap::IndexMap;
use vstd::prelude::*;

verus! {

/// A set of connection attributes. Each of them may be absent, which means
/// that this level of the configuration does not speak of it.
#[derive(Debug)]
pub struct Scope {
    /// User to connect as.
    pub user: Option<String>,
    /// Port to connect to.
    pub port: Option<u16>,
    /// Path of the host-key store.
    pub known_hosts: Option<String>,
    /// Path of the private key.
    pub private_key: Option<String>,
    /// Path of the OpenSSH certificate.
    pub openssh_cert: Option<String>,
    /// Preferred key-exchange algorithms.
    pub kex: Option<Vec<String>>,
    /// Preferred host-key and public-key algorithms.
    pub alg: Option<Vec<String>>,
    /// Preferred symmetric ciphers.
    pub cipher: Option<Vec<String>>,
    /// Preferred MAC algorithms.
    pub mac: Option<Vec<String>>,
    /// Seconds to wait for a connection.
    pub timeout: Option<u64>,
    /// Seconds between keepalive messages while the server is silent.
    pub interval: Option<u64>,
    /// Keepalive messages that may go unanswered.
    pub retries: Option<usize>,
}

/// What a [`Scope`] holds, as mathematical values.
pub struct ScopeView {
    pub user: Option<Seq<char>>,
    pub port: Option<u16>,
    pub known_hosts: Option<Seq<char>>,
    pub private_key: Option<Seq<char>>,
    pub openssh_cert: Option<Seq<char>>,
    pub kex: Option<Seq<Seq<char>>>,
    pub alg: Option<Seq<Seq<char>>>,
    pub cipher: Option<Seq<Seq<char>>>,
    pub mac: Option<Seq<Seq<char>>>,
    pub timeout: Option<u64>,
    pub interval: Option<u64>,
    pub retries: Option<usize>,
}

/// The first of two optional values that is present.
pub open spec fn first_of<T>(a: Option<T>, b: Option<T>) -> Option<T> {
    if a is Some {
        a
    } else {
        b
    }
}

impl ScopeView {
    /// The scope that specifies nothing.
    pub open spec fn empty() -> ScopeView {
        ScopeView {
            user: None,
            port: None,
            known_hosts: None,
            private_key: None,
            openssh_cert: None,
            kex: None,
            alg: None,
            cipher: None,
            mac: None,
            timeout: None,
            interval: None,
            retries: None,
        }
    }

    /// Field by field, the value of `self` where it has one, else that of
    /// `fallback`.
    pub open spec fn merge(self, fallback: ScopeView) -> ScopeView {
        ScopeView {
            user: first_of(self.user, fallback.user),
            port: first_of(self.port, fallback.port),
            known_hosts: first_of(self.known_hosts, fallback.known_hosts),
            private_key: first_of(self.private_key, fallback.private_key),
            openssh_cert: first_of(self.openssh_cert, fallback.openssh_cert),
            kex: first_of(self.kex, fallback.kex),
            alg: first_of(self.alg, fallback.alg),
            cipher: first_of(self.cipher, fallback.cipher),
            mac: first_of(self.mac, fallback.mac),
            timeout: first_of(self.timeout, fallback.timeout),
            interval: first_of(self.interval, fallback.interval),
            retries: first_of(self.retries, fallback.retries),
        }
    }
}

/// Merging prefers the more specific scope field by field: each field of
/// the result is that of `specific` where it is present there, and that of
/// `general` only where it is not. No field depends on another.
pub proof fn lemma_merge_prefers_specific(specific: ScopeView, general: ScopeView)
    ensures
        ({
            let merged = specific.merge(general);
            &&& merged.user == first_of(specific.user, general.user)
            &&& merged.port == first_of(specific.port, general.port)
            &&& merged.known_hosts == first_of(specific.known_hosts, general.known_hosts)
            &&& merged.private_key == first_of(specific.private_key, general.private_key)
            &&& merged.openssh_cert == first_of(specific.openssh_cert, general.openssh_cert)
            &&& merged.kex == first_of(specific.kex, general.kex)
            &&& merged.alg == first_of(specific.alg, general.alg)
            &&& merged.cipher == first_of(specific.cipher, general.cipher)
            &&& merged.mac == first_of(specific.mac, general.mac)
            &&& merged.timeout == first_of(specific.timeout, general.timeout)
            &&& merged.interval == first_of(specific.interval, general.interval)
            &&& merged.retries == first_of(specific.retries, general.retries)
        }),
{
}

/// Merging with the empty scope changes nothing, on either side, and three
/// levels merge to the same whichever two are merged first.
pub proof fn lemma_merge_is_a_cascade(a: ScopeView, b: ScopeView, c: ScopeView)
    ensures
        a.merge(ScopeView::empty()) == a,
        ScopeView::empty().merge(a) == a,
        a.merge(b).merge(c) == a.merge(b.merge(c)),
        a.merge(a) == a,
{
}

impl View for Scope {
    type V = ScopeView;

    open spec fn view(&self) -> ScopeView {
        ScopeView {
            user: self.user.deep_view(),
            port: self.port,
            known_hosts: self.known_hosts.deep_view(),
            private_key: self.private_key.deep_view(),
            openssh_cert: self.openssh_cert.deep_view(),
            kex: self.kex.deep_view(),
            alg: self.alg.deep_view(),
            cipher: self.cipher.deep_view(),
            mac: self.mac.deep_view(),
            timeout: self.timeout,
            interval: self.interval,
            retries: self.retries,
        }
    }
}

impl Default for Scope {
    fn default() -> (s: Scope)
        ensures
            s@ == ScopeView::empty(),
    {
        Scope {
            user: None,
            port: None,
            known_hosts: None,
            private_key: None,
            openssh_cert: None,
            kex: None,
            alg: None,
            cipher: None,
            mac: None,
            timeout: None,
            interval: None,
            retries: None,
        }
    }
}

impl Clone for Scope {
    fn clone(&self) -> (s: Scope)
        ensures
            s@ == self@,
    {
        Scope {
            user: copy_opt_text(&self.user),
            port: self.port,
            known_hosts: copy_opt_text(&self.known_hosts),
            private_key: copy_opt_text(&self.private_key),
            openssh_cert: copy_opt_text(&self.openssh_cert),
            kex: copy_opt_names(&self.kex),
            alg: copy_opt_names(&self.alg),
            cipher: copy_opt_names(&self.cipher),
            mac: copy_opt_names(&self.mac),
            timeout: self.timeout,
            interval: self.interval,
            retries: self.retries,
        }
    }
}

impl PartialEq for Scope {
    fn eq(&self, other: &Scope) -> (r: bool) {
        self.same_as(other)
    }
}

impl vstd::std_specs::cmp::PartialEqSpecImpl for Scope {
    open spec fn obeys_eq_spec() -> bool {
        true
    }

    open spec fn eq_spec(&self, other: &Scope) -> bool {
        self@ == other@
    }
}

impl core::ops::AddAssign for Scope {
    fn add_assign(&mut self, fallback: Scope)
        ensures
            final(self)@ == old(self)@.merge(fallback@),
    {
        self.merge(fallback)
    }
}

impl Scope {
    /// Whether the scope specifies nothing at all.
    pub fn is_empty(&self) -> (r: bool)
        ensures
            r == (self@ == ScopeView::empty()),
    {
        self.user.is_none() && self.port.is_none() && self.known_hosts.is_none()
            && self.private_key.is_none() && self.openssh_cert.is_none() && self.kex.is_none()
            && self.alg.is_none() && self.cipher.is_none() && self.mac.is_none()
            && self.timeout.is_none() && self.interval.is_none() && self.retries.is_none()
    }

    /// Whether two scopes specify the same attributes with the same values.
    pub fn same_as(&self, other: &Scope) -> (r: bool)
        ensures
            r == (self@ == other@),
    {
        same_opt_text(&self.user, &other.user) && self.port == other.port && same_opt_text(
            &self.known_hosts,
            &other.known_hosts,
        ) && same_opt_text(&self.private_key, &other.private_key) && same_opt_text(
            &self.openssh_cert,
            &other.openssh_cert,
        ) && same_opt_names(&self.kex, &other.kex) && same_opt_names(&self.alg, &other.alg)
            && same_opt_names(&self.cipher, &other.cipher) && same_opt_names(&self.mac, &other.mac)
            && self.timeout == other.timeout && self.interval == other.interval && self.retries
            == other.retries
    }

    /// Fills each attribute that `self` leaves open from `fallback`.
    pub fn merge(&mut self, fallback: Scope)
        ensures
            final(self)@ == old(self)@.merge(fallback@),
    {
        if self.user.is_none() {
            self.user = fallback.user;
        }
        if self.port.is_none() {
            self.port = fallback.port;
        }
        if self.known_hosts.is_none() {
            self.known_hosts = fallback.known_hosts;
        }
        if self.private_key.is_none() {
            self.private_key = fallback.private_key;
        }
        if self.openssh_cert.is_none() {
            self.openssh_cert = fallback.openssh_cert;
        }
        if self.kex.is_none() {
            self.kex = fallback.kex;
        }
        if self.alg.is_none() {
            self.alg = fallback.alg;
        }
        if self.cipher.is_none() {
            self.cipher = fallback.cipher;
        }
        if self.mac.is_none() {
            self.mac = fallback.mac;
        }
        if self.timeout.is_none() {
            self.timeout = fallback.timeout;
        }
        if self.interval.is_none() {
            self.interval = fallback.interval;
        }
        if self.retries.is_none() {
            self.retries = fallback.retries;
        }
    }
}

/// A server: where it is reached, and the attributes that it sets itself.
#[derive(Debug)]
pub struct Server {
    /// Address of the server.
    pub address: String,
    /// The attributes that the server sets itself.
    pub scope: Scope,
}

/// What a [`Server`] holds, as mathematical values.
pub struct ServerView {
    pub address: Seq<char>,
    pub scope: ScopeView,
}

impl View for Server {
    type V = ServerView;

    open spec fn view(&self) -> ServerView {
        ServerView { address: self.address@, scope: self.scope@ }
    }
}

impl ServerView {
    /// The server at `address` that sets no attribute.
    pub open spec fn bare(address: Seq<char>) -> ServerView {
        ServerView { address, scope: ScopeView::empty() }
    }
}

impl Default for Server {
    fn default() -> (s: Server)
        ensures
            s@ == ServerView::bare(Seq::empty()),
    {
        Server { address: String::new(), scope: Scope::default() }
    }
}

impl Clone for Server {
    fn clone(&self) -> (s: Server)
        ensures
            s@ == self@,
    {
        Server { address: self.address.clone(), scope: self.scope.clone() }
    }
}

impl Server {
    /// The server at `address` that sets no attribute.
    pub fn new(address: String) -> (s: Server)
        ensures
            s@ == ServerView::bare(address@),
    {
        Server { address, scope: Scope::default() }
    }

    /// Moves the address out of `uri` into a server that sets no attribute.
    /// The user and the port of `uri` stay where they are.
    pub fn from_uri_address(uri: &mut ServerUri) -> (s: Server)
        ensures
            s@ == ServerView::bare(old(uri).address@),
            final(uri).address@ == Seq::<char>::empty(),
            final(uri).user == old(uri).user,
            final(uri).port == old(uri).port,
    {
        let mut address = String::new();
        core::mem::swap(&mut uri.address, &mut address);
        Server::new(address)
    }

    /// Whether the server sets no attribute of its own.
    pub fn is_only_address(&self) -> (r: bool)
        ensures
            r == (self@.scope == ScopeView::empty()),
    {
        self.scope.is_empty()
    }

    /// Puts `host` in the place of each `$h` in the address.
    pub fn apply_host_placeholder(&mut self, host: &str)
        ensures
            final(self)@.address == substitute_host(old(self)@.address, host@),
            final(self)@.scope == old(self)@.scope,
    {
        self.address = substitute(self.address.as_str(), host);
    }

    /// Fills each attribute that the server leaves open from `scope`.
    pub fn apply_scope(&mut self, scope: Scope)
        ensures
            final(self)@.address == old(self)@.address,
            final(self)@.scope == old(self)@.scope.merge(scope@),
    {
        self.scope.merge(scope);
    }
}

/// A server as one scope lists it: by its address alone, or with attributes
/// of its own that take precedence over those of the scope.
#[derive(Debug)]
pub enum ScopedServer {
    /// Just the address of the server.
    Address(String),
    /// A server with attributes of its own.
    Override(Box<Server>),
}

/// What a [`ScopedServer`] holds, as mathematical values.
pub enum ScopedServerView {
    Address(Seq<char>),
    Override(ServerView),
}

impl ScopedServerView {
    /// The server that the entry stands for.
    pub open spec fn server(self) -> ServerView {
        match self {
            ScopedServerView::Address(address) => ServerView::bare(address),
            ScopedServerView::Override(server) => server,
        }
    }
}

impl View for ScopedServer {
    type V = ScopedServerView;

    open spec fn view(&self) -> ScopedServerView {
        match self {
            ScopedServer::Address(address) => ScopedServerView::Address(address@),
            ScopedServer::Override(server) => ScopedServerView::Override(server@),
        }
    }
}

impl Default for ScopedServer {
    fn default() -> (s: ScopedServer)
        ensures
            s@ == ScopedServerView::Address(Seq::empty()),
    {
        ScopedServer::Address(String::new())
    }
}

impl Clone for ScopedServer {
    fn clone(&self) -> (s: ScopedServer)
        ensures
            s@ == self@,
    {
        match self {
            ScopedServer::Address(address) => ScopedServer::Address(address.clone()),
            ScopedServer::Override(server) => {
                let copy: Server = (**server).clone();
                ScopedServer::Override(Box::new(copy))
            },
        }
    }
}

impl ScopedServer {
    /// The entry that stands for `server`: its address alone where it sets
    /// no attribute, else the whole server.
    pub fn from_server(server: Server) -> (s: ScopedServer)
        ensures
            s@ == (if server@.scope == ScopeView::empty() {
                ScopedServerView::Address(server@.address)
            } else {
                ScopedServerView::Override(server@)
            }),
    {
        if server.is_only_address() {
            ScopedServer::Address(server.address)
        } else {
            ScopedServer::Override(Box::new(server))
        }
    }

    /// The server that the entry stands for.
    pub fn into_server(self) -> (s: Server)
        ensures
            s@ == self@.server(),
            s == server_of(self),
    {
        match self {
            ScopedServer::Address(address) => Server {
                address,
                scope: Scope {
                    user: None,
                    port: None,
                    known_hosts: None,
                    private_key: None,
                    openssh_cert: None,
                    kex: None,
                    alg: None,
                    cipher: None,
                    mac: None,
                    timeout: None,
                    interval: None,
                    retries: None,
                },
            },
            ScopedServer::Override(server) => *server,
        }
    }
}

impl From<ScopedServer> for Server {
    fn from(entry: ScopedServer) -> (server: Server) {
        entry.into_server()
    }
}

impl vstd::std_specs::convert::FromSpecImpl<ScopedServer> for Server {
    open spec fn obeys_from_spec() -> bool {
        true
    }

    open spec fn from_spec(entry: ScopedServer) -> Server {
        server_of(entry)
    }
}

/// The server that an entry stands for: a bare address is the server at that
/// address that sets no attribute.
pub open spec fn server_of(entry: ScopedServer) -> Server {
    match entry {
        ScopedServer::Address(address) => Server {
            address,
            scope: Scope {
                user: None,
                port: None,
                known_hosts: None,
                private_key: None,
                openssh_cert: None,
                kex: None,
                alg: None,
                cipher: None,
                mac: None,
                timeout: None,
                interval: None,
                retries: None,
            },
        },
        ScopedServer::Override(server) => *server,
    }
}

/// The entries of a map of scoped servers, each with its name and its view.
pub open spec fn scoped_views(entries: Seq<(Seq<char>, ScopedServer)>) -> Seq<
    (Seq<char>, ScopedServerView),
> {
    Seq::new(entries.len(), |i: int| (entries[i].0, entries[i].1@))
}

/// What the configuration holds under one name: a server that every scope
/// sees, or the servers of the scope of that name.
#[derive(Debug)]
pub enum ServerEntry {
    /// A server available globally.
    Global(ScopedServer),
    /// The servers of one scope, by name, in the order of the configuration.
    Scope(IndexMap<String, ScopedServer>),
}

/// What a [`ServerEntry`] holds, as mathematical values.
pub enum ServerEntryView {
    Global(ScopedServerView),
    Scope(Seq<(Seq<char>, ScopedServerView)>),
}

impl View for ServerEntry {
    type V = ServerEntryView;

    open spec fn view(&self) -> ServerEntryView {
        match self {
            ServerEntry::Global(server) => ServerEntryView::Global(server@),
            ServerEntry::Scope(servers) => ServerEntryView::Scope(
                scoped_views(scoped_entries(*servers)),
            ),
        }
    }
}

impl Default for ServerEntry {
    fn default() -> (e: ServerEntry)
        ensures
            e@ == ServerEntryView::Global(ScopedServerView::Address(Seq::empty())),
    {
        ServerEntry::Global(ScopedServer::default())
    }
}

/// The entries of a map of scopes, each with its name and its view.
pub open spec fn scope_views(entries: Seq<(Seq<char>, Scope)>) -> Seq<(Seq<char>, ScopeView)> {
    Seq::new(entries.len(), |i: int| (entries[i].0, entries[i].1@))
}

/// The entries of a map of server entries, each with its name and its view.
pub open spec fn entry_views(entries: Seq<(Seq<char>, ServerEntry)>) -> Seq<
    (Seq<char>, ServerEntryView),
> {
    Seq::new(entries.len(), |i: int| (entries[i].0, entries[i].1@))
}

/// The whole configuration: defaults, which a scope overrides, which a
/// server overrides in turn.
#[derive(Debug)]
pub struct Config {
    /// Attributes for every connection that nothing else sets.
    pub default: Option<Scope>,
    /// The named scopes.
    pub scopes: IndexMap<String, Scope>,
    /// The servers: global ones, and those of the scopes.
    pub servers: IndexMap<String, ServerEntry>,
}

/// What a [`Config`] holds, as mathematical values. The two maps are the
/// sequences of their entries, in the order in which the maps hold them.
pub struct ConfigView {
    pub default: Option<ScopeView>,
    pub scopes: Seq<(Seq<char>, ScopeView)>,
    pub servers: Seq<(Seq<char>, ServerEntryView)>,
}

impl View for Config {
    type V = ConfigView;

    open spec fn view(&self) -> ConfigView {
        ConfigView {
            default: match self.default {
                Some(scope) => Some(scope@),
                None => None,
            },
            scopes: scope_views(scope_entries(self.scopes)),
            servers: entry_views(server_entries(self.servers)),
        }
    }
}

/// The global defaults as they are kept: defaults that set nothing count
/// as no defaults.
pub open spec fn kept_default(default: Option<ScopeView>) -> Option<ScopeView> {
    match default {
        Some(scope) => if scope == ScopeView::empty() {
            None
        } else {
            Some(scope)
        },
        None => None,
    }
}

/// The global defaults as they are kept after they were read: a scope that
/// sets nothing becomes no scope at all.
pub fn empty_scope_is_none(default: Option<Scope>) -> (kept: Option<Scope>)
    ensures
        (match kept {
            Some(scope) => Some(scope@),
            None => None,
        }) == kept_default(
            match default {
                Some(scope) => Some(scope@),
                None => None,
            },
        ),
{
    match default {
        Some(scope) => if scope.is_empty() {
            None
        } else {
            Some(scope)
        },
        None => None,
    }
}

/// Reading the defaults a second time changes nothing more.
pub proof fn lemma_kept_default_is_stable(default: Option<ScopeView>)
    ensures
        kept_default(kept_default(default)) == kept_default(default),
        default matches Some(scope) && scope != ScopeView::empty() ==> kept_default(default)
            == default,
        kept_default(Some(ScopeView::empty())) == None::<ScopeView>,
{
}

} // verus!
