use crate::data::ConnectionData;
use crate::text::{chars_of, push_char};
use vstd::string::StringExecFns;
use vstd::prelude::*;

verus! {

/// A way to authenticate that a server may offer.
#[derive(Clone, Copy, Debug, PartialEq, Eq, Structural)]
pub enum Method {
    /// A signature with a private key: one that a key agent holds, the
    /// configured key with its certificate, or the configured key alone.
    PublicKey,
    /// Answers to questions that the server asks.
    KeyboardInteractive,
    /// The password of the user.
    Password,
    /// Any method that this client does not take part in.
    Other,
}

/// The most often that the passphrase of one key is asked for.
pub const MAX_PASSPHRASE_ATTEMPTS: u8 = 3;

/// Whether `needle` stands somewhere in `text`.
pub open spec fn contains_text(text: Seq<char>, needle: Seq<char>) -> bool {
    exists|at: int| occurs_at(text, needle, at)
}

/// Whether `needle` stands in `text` at the place `at`.
pub open spec fn occurs_at(text: Seq<char>, needle: Seq<char>, at: int) -> bool {
    0 <= at && at + needle.len() <= text.len() && text.subrange(at, at + needle.len()) == needle
}

/// Whether `needle` stands in `text` at the place `at`.
fn found_at(text: &Vec<char>, needle: &Vec<char>, at: usize) -> (found: bool)
    requires
        at + needle.len() <= text.len(),
    ensures
        found == occurs_at(text@, needle@, at as int),
{
    let mut i: usize = 0;
    while i < needle.len()
        invariant
            i <= needle.len(),
            at + needle.len() <= text.len(),
            forall|j: int| 0 <= j < i ==> text@[at + j] == needle@[j],
        decreases needle.len() - i,
    {
        if text[at + i] != needle[i] {
            assert(text@.subrange(at as int, at + needle.len())[i as int] != needle@[i as int]);
            return false;
        }
        i = i + 1;
    }
    assert(text@.subrange(at as int, at + needle.len()) =~= needle@);
    true
}

/// Whether `needle` stands somewhere in `text`.
pub fn text_contains(text: &Vec<char>, needle: &Vec<char>) -> (found: bool)
    ensures
        found == contains_text(text@, needle@),
{
    if needle.len() > text.len() {
        return false;
    }
    let last = text.len() - needle.len();
    let mut at: usize = 0;
    while at < last
        invariant
            at <= last,
            last == text.len() - needle.len(),
            needle.len() <= text.len(),
            forall|k: int| 0 <= k < at ==> !occurs_at(text@, needle@, k),
        decreases last - at,
    {
        if found_at(text, needle, at) {
            return true;
        }
        at = at + 1;
    }
    found_at(text, needle, last)
}

/// Whether the comment of an identity names the server or the user.
pub open spec fn mentions(comment: Seq<char>, address: Seq<char>, user: Seq<char>) -> bool {
    contains_text(comment, address) || contains_text(comment, user)
}

/// The places from `from` on, in order, whose comment mentions the server
/// or the user (for `wanted`), or does not (for `!wanted`).
pub open spec fn picked(
    comments: Seq<Seq<char>>,
    address: Seq<char>,
    user: Seq<char>,
    wanted: bool,
    from: int,
) -> Seq<usize>
    decreases comments.len() - from,
{
    if from < 0 || from >= comments.len() {
        Seq::empty()
    } else if mentions(comments[from], address, user) == wanted {
        seq![from as usize] + picked(comments, address, user, wanted, from + 1)
    } else {
        picked(comments, address, user, wanted, from + 1)
    }
}

/// The order in which the identities of an agent are tried: first those
/// whose comment mentions the server or the user, then the others, each
/// group in the order of the agent.
pub open spec fn identity_order(
    comments: Seq<Seq<char>>,
    address: Seq<char>,
    user: Seq<char>,
) -> Seq<usize> {
    picked(comments, address, user, true, 0) + picked(comments, address, user, false, 0)
}

/// The places of one of the two groups of identities.
fn pick(comments: &Vec<String>, address: &Vec<char>, user: &Vec<char>, wanted: bool) -> (places:
    Vec<usize>)
    ensures
        places@ == picked(comments.deep_view(), address@, user@, wanted, 0),
{
    let ghost all = comments.deep_view();
    let mut places: Vec<usize> = Vec::new();
    let mut i: usize = 0;
    assert(places@ + picked(all, address@, user@, wanted, 0) =~= picked(
        all,
        address@,
        user@,
        wanted,
        0,
    ));
    while i < comments.len()
        invariant
            i <= comments.len(),
            all == comments.deep_view(),
            places@ + picked(all, address@, user@, wanted, i as int) == picked(
                all,
                address@,
                user@,
                wanted,
                0,
            ),
        decreases comments.len() - i,
    {
        let comment = chars_of(comments[i].as_str());
        assert(comment@ == all[i as int]);
        let named = text_contains(&comment, address) || text_contains(&comment, user);
        let ghost rest = picked(all, address@, user@, wanted, i + 1);
        if named == wanted {
            assert(places@.push(i) + rest =~= places@ + (seq![i] + rest));
            places.push(i);
        }
        i = i + 1;
    }
    assert(places@ + Seq::<usize>::empty() =~= places@);
    places
}

/// The order in which the identities of an agent are tried, given their
/// comments.
pub fn order_identities(comments: &Vec<String>, address: &str, user: &str) -> (order: Vec<usize>)
    ensures
        order@ == identity_order(comments.deep_view(), address@, user@),
{
    let a = chars_of(address);
    let u = chars_of(user);
    let mut order = pick(comments, &a, &u, true);
    let mut others = pick(comments, &a, &u, false);
    order.append(&mut others);
    order
}

/// What the client has to authenticate with.
#[derive(Clone, Copy, Debug, PartialEq, Eq, Structural)]
pub struct Credentials {
    /// Whether a key agent can be asked for identities.
    pub agent: bool,
    /// Whether a private key is configured.
    pub private_key: bool,
    /// Whether a certificate is configured.
    pub certificate: bool,
}

impl Credentials {
    /// What the parameters of a connection give to authenticate with.
    pub fn of(data: &ConnectionData, agent: bool) -> (credentials: Credentials)
        ensures
            credentials == (Credentials {
                agent,
                private_key: data@.private_key is Some,
                certificate: data@.openssh_cert is Some,
            }),
    {
        Credentials {
            agent,
            private_key: data.private_key.is_some(),
            certificate: data.openssh_cert.is_some(),
        }
    }
}

/// What the configured private key is loaded for.
#[derive(Clone, Copy, Debug, PartialEq, Eq, Structural)]
pub enum KeyUse {
    /// To authenticate with the certificate.
    Certificate,
    /// To authenticate with the key alone.
    PublicKey,
}

/// Where an authentication stands. Each stage but the last two waits for
/// the outcome of the action that was asked for when it was entered.
#[derive(Clone, Copy, Debug, PartialEq, Eq, Structural)]
pub enum Stage {
    /// Authentication without credentials has been tried.
    Start,
    /// The key agent has been asked for its identities.
    Agent,
    /// An identity of the agent has been tried.
    Identity,
    /// The private key is being loaded without a passphrase.
    Key(KeyUse),
    /// The private key is being loaded with a passphrase that was asked for.
    Passphrase(KeyUse),
    /// The certificate is being loaded.
    Certificate,
    /// The certificate has been tried.
    CertificateAuth,
    /// The key alone has been tried.
    KeyAuth,
    /// The server has been asked for its questions, or has been answered.
    Interactive,
    /// The password has been tried.
    Password,
    /// The server has accepted the client.
    Authenticated,
    /// Nothing is left to try.
    Failed,
}

/// Why an authentication failed.
#[derive(Debug)]
pub enum AuthFailure {
    /// The server offered no method at all.
    NoMethods,
    /// Every method that the server offered has been gone through without
    /// success.
    Exhausted {
        /// The methods that the server offered, in its order.
        methods: Vec<Method>,
        /// Whether the passphrase of the private key was wrong too often.
        passphrase_exhausted: bool,
        /// Whether the private key or the certificate could not be loaded.
        load_failed: bool,
    },
}

/// What an [`AuthFailure`] holds, as mathematical values.
pub enum AuthFailureView {
    NoMethods,
    Exhausted { methods: Seq<Method>, passphrase_exhausted: bool, load_failed: bool },
}

impl View for AuthFailure {
    type V = AuthFailureView;

    open spec fn view(&self) -> AuthFailureView {
        match self {
            AuthFailure::NoMethods => AuthFailureView::NoMethods,
            AuthFailure::Exhausted {
                methods,
                passphrase_exhausted,
                load_failed,
            } => AuthFailureView::Exhausted {
                methods: methods@,
                passphrase_exhausted: *passphrase_exhausted,
                load_failed: *load_failed,
            },
        }
    }
}

/// What the caller is to do next.
#[derive(Debug)]
pub enum Action {
    /// Try to authenticate without credentials.
    TryNone,
    /// Ask the key agent for its identities.
    QueryAgent,
    /// Try the identity that the agent listed at this place.
    TryIdentity(usize),
    /// Load the private key without a passphrase.
    LoadKey,
    /// Ask for the passphrase of the private key and load the key with it.
    AskPassphrase,
    /// Load the certificate.
    LoadCertificate,
    /// Try to authenticate with the loaded key and certificate.
    TryCertificate,
    /// Try to authenticate with the loaded key alone.
    TryPublicKey,
    /// Ask the server for its questions.
    StartInteractive,
    /// Put the questions of the server to the user and send the answers.
    AnswerPrompts,
    /// Ask for the password and try it.
    TryPassword,
    /// Stop: the client is authenticated.
    Succeed,
    /// Stop: the authentication has failed.
    Fail(AuthFailure),
}

/// What an [`Action`] holds, as mathematical values.
pub enum ActionView {
    TryNone,
    QueryAgent,
    TryIdentity(usize),
    LoadKey,
    AskPassphrase,
    LoadCertificate,
    TryCertificate,
    TryPublicKey,
    StartInteractive,
    AnswerPrompts,
    TryPassword,
    Succeed,
    Fail(AuthFailureView),
}

impl View for Action {
    type V = ActionView;

    open spec fn view(&self) -> ActionView {
        match self {
            Action::TryNone => ActionView::TryNone,
            Action::QueryAgent => ActionView::QueryAgent,
            Action::TryIdentity(place) => ActionView::TryIdentity(*place),
            Action::LoadKey => ActionView::LoadKey,
            Action::AskPassphrase => ActionView::AskPassphrase,
            Action::LoadCertificate => ActionView::LoadCertificate,
            Action::TryCertificate => ActionView::TryCertificate,
            Action::TryPublicKey => ActionView::TryPublicKey,
            Action::StartInteractive => ActionView::StartInteractive,
            Action::AnswerPrompts => ActionView::AnswerPrompts,
            Action::TryPassword => ActionView::TryPassword,
            Action::Succeed => ActionView::Succeed,
            Action::Fail(failure) => ActionView::Fail(failure@),
        }
    }
}

/// What came of the action that was asked for.
#[derive(Debug)]
pub enum Event {
    /// The server accepted the attempt.
    Accepted,
    /// The server rejected the attempt; it goes on with these methods, in
    /// this order.
    Rejected(Vec<Method>),
    /// The agent holds these identities; each is given by its comment.
    Identities(Vec<String>),
    /// The private key is loaded.
    KeyLoaded,
    /// The private key needs a passphrase.
    KeyEncrypted,
    /// The passphrase does not open the private key.
    WrongPassphrase,
    /// The certificate is loaded.
    CertificateLoaded,
    /// The server asks questions.
    Prompts,
    /// What was asked for could not be done: no agent answers, a file
    /// cannot be read or understood, the terminal cannot be read.
    Failed,
}

/// What an [`Event`] holds, as mathematical values.
pub enum EventView {
    Accepted,
    Rejected(Seq<Method>),
    Identities(Seq<Seq<char>>),
    KeyLoaded,
    KeyEncrypted,
    WrongPassphrase,
    CertificateLoaded,
    Prompts,
    Failed,
}

impl View for Event {
    type V = EventView;

    open spec fn view(&self) -> EventView {
        match self {
            Event::Accepted => EventView::Accepted,
            Event::Rejected(methods) => EventView::Rejected(methods@),
            Event::Identities(comments) => EventView::Identities(comments.deep_view()),
            Event::KeyLoaded => EventView::KeyLoaded,
            Event::KeyEncrypted => EventView::KeyEncrypted,
            Event::WrongPassphrase => EventView::WrongPassphrase,
            Event::CertificateLoaded => EventView::CertificateLoaded,
            Event::Prompts => EventView::Prompts,
            Event::Failed => EventView::Failed,
        }
    }
}

/// The state of an authentication, as mathematical values.
pub struct EngineView {
    /// Where the authentication stands.
    pub stage: Stage,
    /// The methods that the server offered, in its order.
    pub methods: Seq<Method>,
    /// The place of the method that is in progress.
    pub cursor: int,
    /// The order in which the identities of the agent are tried.
    pub order: Seq<usize>,
    /// How many identities have been tried.
    pub next: int,
    /// How often the passphrase of the key that is being loaded was wrong.
    pub attempts: int,
    /// Whether the passphrase was wrong too often, so that the key is not
    /// used again.
    pub key_dead: bool,
    /// Whether the private key or the certificate could not be loaded.
    pub load_failed: bool,
    /// What the client has to authenticate with.
    pub credentials: Credentials,
    /// The address of the server.
    pub address: Seq<char>,
    /// The user to authenticate as.
    pub user: Seq<char>,
}

impl EngineView {
    /// The state in which authentication without credentials is tried.
    pub open spec fn initial(
        credentials: Credentials,
        address: Seq<char>,
        user: Seq<char>,
    ) -> EngineView {
        EngineView {
            stage: Stage::Start,
            methods: Seq::empty(),
            cursor: 0,
            order: Seq::empty(),
            next: 0,
            attempts: 0,
            key_dead: false,
            load_failed: false,
            credentials,
            address,
            user,
        }
    }

    /// Whether the state is one that an authentication can be in.
    pub open spec fn wf(self) -> bool {
        &&& 0 <= self.cursor <= self.methods.len()
        &&& 0 <= self.next <= self.order.len()
        &&& 0 <= self.attempts <= MAX_PASSPHRASE_ATTEMPTS
        &&& self.in_method() ==> self.cursor < self.methods.len()
        &&& self.stage is Failed ==> self.cursor == self.methods.len()
    }

    /// Whether a method of the server is in progress.
    pub open spec fn in_method(self) -> bool {
        !(self.stage is Start || self.stage is Authenticated || self.stage is Failed)
    }

    /// Whether the authentication has ended.
    pub open spec fn finished(self) -> bool {
        self.stage is Authenticated || self.stage is Failed
    }

    /// Whether the private key may be loaded.
    pub open spec fn key_usable(self) -> bool {
        self.credentials.private_key && !self.key_dead
    }

    /// Whether the private key may be loaded for the certificate.
    pub open spec fn certificate_usable(self) -> bool {
        self.key_usable() && self.credentials.certificate
    }

    /// Whether the client has anything to try for the public-key method.
    pub open spec fn public_key_usable(self) -> bool {
        self.credentials.agent || self.key_usable()
    }

    /// The failure once nothing is left to try.
    pub open spec fn failure(self) -> AuthFailureView {
        if self.methods.len() == 0 {
            AuthFailureView::NoMethods
        } else {
            AuthFailureView::Exhausted {
                methods: self.methods,
                passphrase_exhausted: self.key_dead,
                load_failed: self.load_failed,
            }
        }
    }

    /// The state at `stage`.
    pub open spec fn at_stage(self, stage: Stage) -> EngineView {
        EngineView { stage, ..self }
    }

    /// The end in success.
    pub open spec fn succeed(self) -> (EngineView, ActionView) {
        (self.at_stage(Stage::Authenticated), ActionView::Succeed)
    }

    /// Begins the first method at or after the place `at` that the client
    /// can take part in. A method that it cannot take part in is passed
    /// over. Where no method is left, the authentication has failed.
    pub open spec fn enter(self, at: int) -> (EngineView, ActionView)
        decreases self.methods.len() - at,
    {
        if at < 0 || at >= self.methods.len() {
            (
                EngineView { stage: Stage::Failed, cursor: self.methods.len() as int, ..self },
                ActionView::Fail(self.failure()),
            )
        } else {
            let here = EngineView { cursor: at, ..self };
            match self.methods[at] {
                Method::PublicKey => if self.credentials.agent {
                    (here.at_stage(Stage::Agent), ActionView::QueryAgent)
                } else if self.certificate_usable() {
                    (here.at_stage(Stage::Key(KeyUse::Certificate)), ActionView::LoadKey)
                } else if self.key_usable() {
                    (here.at_stage(Stage::Key(KeyUse::PublicKey)), ActionView::LoadKey)
                } else {
                    self.enter(at + 1)
                },
                Method::KeyboardInteractive => (
                    here.at_stage(Stage::Interactive),
                    ActionView::StartInteractive,
                ),
                Method::Password => (here.at_stage(Stage::Password), ActionView::TryPassword),
                Method::Other => self.enter(at + 1),
            }
        }
    }

    /// Leaves the method in progress and begins the next one.
    pub open spec fn leave(self) -> (EngineView, ActionView) {
        self.enter(self.cursor + 1)
    }

    /// Goes on with the key alone, or leaves the method where the key
    /// cannot be used.
    pub open spec fn key_or_later(self) -> (EngineView, ActionView) {
        if self.key_usable() {
            (self.at_stage(Stage::Key(KeyUse::PublicKey)), ActionView::LoadKey)
        } else {
            self.leave()
        }
    }

    /// Goes on with the certificate, or with what comes after it where the
    /// certificate cannot be used.
    pub open spec fn certificate_or_later(self) -> (EngineView, ActionView) {
        if self.certificate_usable() {
            (self.at_stage(Stage::Key(KeyUse::Certificate)), ActionView::LoadKey)
        } else {
            self.key_or_later()
        }
    }

    /// Tries the next identity of the agent, or goes on with the
    /// certificate once every identity has been tried.
    pub open spec fn next_identity(self) -> (EngineView, ActionView) {
        if 0 <= self.next < self.order.len() {
            (
                EngineView { stage: Stage::Identity, next: self.next + 1, ..self },
                ActionView::TryIdentity(self.order[self.next]),
            )
        } else {
            self.certificate_or_later()
        }
    }

    /// Goes on once the private key is loaded.
    pub open spec fn with_key(self, usage: KeyUse) -> (EngineView, ActionView) {
        match usage {
            KeyUse::Certificate => (
                self.at_stage(Stage::Certificate),
                ActionView::LoadCertificate,
            ),
            KeyUse::PublicKey => (self.at_stage(Stage::KeyAuth), ActionView::TryPublicKey),
        }
    }

    /// Goes on once the private key could not be loaded.
    pub open spec fn without_key(self, usage: KeyUse) -> (EngineView, ActionView) {
        match usage {
            KeyUse::Certificate => self.key_or_later(),
            KeyUse::PublicKey => self.leave(),
        }
    }

    /// The state once a key or a certificate could not be loaded.
    pub open spec fn load_failure(self) -> EngineView {
        EngineView { load_failed: true, ..self }
    }

    /// The state and the action that follow on `event`.
    pub open spec fn step(self, event: EventView) -> (EngineView, ActionView) {
        match self.stage {
            Stage::Start => match event {
                EventView::Accepted => self.succeed(),
                EventView::Rejected(methods) => EngineView { methods, cursor: 0, ..self }.enter(0),
                _ => EngineView { methods: Seq::empty(), cursor: 0, ..self }.enter(0),
            },
            Stage::Agent => match event {
                EventView::Identities(comments) => EngineView {
                    order: identity_order(comments, self.address, self.user),
                    next: 0,
                    ..self
                }.next_identity(),
                _ => self.certificate_or_later(),
            },
            Stage::Identity => match event {
                EventView::Accepted => self.succeed(),
                _ => self.next_identity(),
            },
            Stage::Key(usage) => match event {
                EventView::KeyLoaded => self.with_key(usage),
                EventView::KeyEncrypted => (
                    EngineView { stage: Stage::Passphrase(usage), attempts: 0, ..self },
                    ActionView::AskPassphrase,
                ),
                _ => self.load_failure().without_key(usage),
            },
            Stage::Passphrase(usage) => match event {
                EventView::KeyLoaded => self.with_key(usage),
                EventView::WrongPassphrase => if self.attempts + 1 < MAX_PASSPHRASE_ATTEMPTS {
                    (EngineView { attempts: self.attempts + 1, ..self }, ActionView::AskPassphrase)
                } else {
                    EngineView {
                        attempts: MAX_PASSPHRASE_ATTEMPTS as int,
                        key_dead: true,
                        ..self
                    }.without_key(usage)
                },
                _ => self.load_failure().without_key(usage),
            },
            Stage::Certificate => match event {
                EventView::CertificateLoaded => (
                    self.at_stage(Stage::CertificateAuth),
                    ActionView::TryCertificate,
                ),
                _ => self.load_failure().key_or_later(),
            },
            Stage::CertificateAuth => match event {
                EventView::Accepted => self.succeed(),
                _ => self.key_or_later(),
            },
            Stage::KeyAuth => match event {
                EventView::Accepted => self.succeed(),
                _ => self.leave(),
            },
            Stage::Interactive => match event {
                EventView::Accepted => self.succeed(),
                EventView::Prompts => (self, ActionView::AnswerPrompts),
                _ => self.leave(),
            },
            Stage::Password => match event {
                EventView::Accepted => self.succeed(),
                _ => self.leave(),
            },
            Stage::Authenticated => (self, ActionView::Succeed),
            Stage::Failed => (self, ActionView::Fail(self.failure())),
        }
    }
}

/// An authentication in progress. The caller does what the last action
/// asked for and hands in what came of it; the engine answers with the next
/// action, until that is `Succeed` or `Fail`.
#[derive(Debug)]
pub struct Engine {
    stage: Stage,
    methods: Vec<Method>,
    cursor: usize,
    order: Vec<usize>,
    next: usize,
    attempts: u8,
    key_dead: bool,
    load_failed: bool,
    credentials: Credentials,
    address: String,
    user: String,
}

impl View for Engine {
    type V = EngineView;

    closed spec fn view(&self) -> EngineView {
        EngineView {
            stage: self.stage,
            methods: self.methods@,
            cursor: self.cursor as int,
            order: self.order@,
            next: self.next as int,
            attempts: self.attempts as int,
            key_dead: self.key_dead,
            load_failed: self.load_failed,
            credentials: self.credentials,
            address: self.address@,
            user: self.user@,
        }
    }
}

impl Engine {
    #[verifier::type_invariant]
    closed spec fn valid(self) -> bool {
        self@.wf()
    }

    /// Begins an authentication: the first action is the attempt without
    /// credentials.
    pub fn start(credentials: Credentials, address: &str, user: &str) -> (begun: (Engine, Action))
        ensures
            begun.0@ == EngineView::initial(credentials, address@, user@),
            begun.0@.wf(),
            begun.1@ == ActionView::TryNone,
    {
        let engine = Engine {
            stage: Stage::Start,
            methods: Vec::new(),
            cursor: 0,
            order: Vec::new(),
            next: 0,
            attempts: 0,
            key_dead: false,
            load_failed: false,
            credentials,
            address: address.to_owned(),
            user: user.to_owned(),
        };
        (engine, Action::TryNone)
    }

    /// Where the authentication stands.
    pub fn stage(&self) -> (stage: Stage)
        ensures
            stage == self@.stage,
    {
        self.stage
    }

    /// Whether the authentication has ended.
    pub fn is_finished(&self) -> (finished: bool)
        ensures
            finished == self@.finished(),
    {
        match self.stage {
            Stage::Authenticated => true,
            Stage::Failed => true,
            _ => false,
        }
    }

    /// The methods that the server offered, in its order.
    pub fn methods(&self) -> (methods: &Vec<Method>)
        ensures
            methods@ == self@.methods,
    {
        &self.methods
    }

    /// Whether the private key or the certificate could not be loaded.
    pub fn load_has_failed(&self) -> (failed: bool)
        ensures
            failed == self@.load_failed,
    {
        self.load_failed
    }

    /// Whether the passphrase of the private key was wrong too often.
    pub fn key_is_dead(&self) -> (dead: bool)
        ensures
            dead == self@.key_dead,
    {
        self.key_dead
    }

    fn at_stage(self, stage: Stage) -> (moved: Engine)
        requires
            !(stage is Failed),
            !(stage is Start || stage is Authenticated) ==> self@.cursor < self@.methods.len(),
        ensures
            moved@ == self@.at_stage(stage),
    {
        proof {
            use_type_invariant(&self);
        }
        Engine {
            stage,
            methods: self.methods,
            cursor: self.cursor,
            order: self.order,
            next: self.next,
            attempts: self.attempts,
            key_dead: self.key_dead,
            load_failed: self.load_failed,
            credentials: self.credentials,
            address: self.address,
            user: self.user,
        }
    }

    fn copy_methods(&self) -> (methods: Vec<Method>)
        ensures
            methods@ == self@.methods,
    {
        let mut methods: Vec<Method> = Vec::new();
        let mut i: usize = 0;
        while i < self.methods.len()
            invariant
                i <= self.methods.len(),
                methods@ == self.methods@.take(i as int),
            decreases self.methods.len() - i,
        {
            methods.push(self.methods[i]);
            assert(self.methods@.take(i + 1) =~= self.methods@.take(i as int).push(
                self.methods@[i as int],
            ));
            i = i + 1;
        }
        assert(self.methods@.take(i as int) =~= self.methods@);
        methods
    }

    fn failure(&self) -> (failure: AuthFailure)
        ensures
            failure@ == self@.failure(),
    {
        if self.methods.len() == 0 {
            AuthFailure::NoMethods
        } else {
            AuthFailure::Exhausted {
                methods: self.copy_methods(),
                passphrase_exhausted: self.key_dead,
                load_failed: self.load_failed,
            }
        }
    }

    fn begin(self, at: usize, stage: Stage) -> (begun: Engine)
        requires
            at < self@.methods.len(),
            !(stage is Failed),
        ensures
            begun@ == (EngineView { cursor: at as int, ..self@ }).at_stage(stage),
    {
        proof {
            use_type_invariant(&self);
        }
        Engine {
            stage,
            methods: self.methods,
            cursor: at,
            order: self.order,
            next: self.next,
            attempts: self.attempts,
            key_dead: self.key_dead,
            load_failed: self.load_failed,
            credentials: self.credentials,
            address: self.address,
            user: self.user,
        }
    }

    fn enter(self, from: usize) -> (next: (Engine, Action))
        ensures
            (next.0@, next.1@) == self@.enter(from as int),
    {
        proof {
            use_type_invariant(&self);
        }
        let key_usable = self.credentials.private_key && !self.key_dead;
        let count = self.methods.len();
        let mut at = from;
        while at < count
            invariant
                count == self.methods.len(),
                key_usable == self@.key_usable(),
                self@.wf(),
                self@.enter(at as int) == self@.enter(from as int),
            decreases count - at,
        {
            match self.methods[at] {
                Method::PublicKey => {
                    if self.credentials.agent {
                        return (self.begin(at, Stage::Agent), Action::QueryAgent);
                    } else if key_usable && self.credentials.certificate {
                        return (self.begin(at, Stage::Key(KeyUse::Certificate)), Action::LoadKey);
                    } else if key_usable {
                        return (self.begin(at, Stage::Key(KeyUse::PublicKey)), Action::LoadKey);
                    }
                },
                Method::KeyboardInteractive => {
                    return (self.begin(at, Stage::Interactive), Action::StartInteractive);
                },
                Method::Password => {
                    return (self.begin(at, Stage::Password), Action::TryPassword);
                },
                Method::Other => {},
            }
            at = at + 1;
        }
        let failure = self.failure();
        let engine = Engine {
            stage: Stage::Failed,
            methods: self.methods,
            cursor: count,
            order: self.order,
            next: self.next,
            attempts: self.attempts,
            key_dead: self.key_dead,
            load_failed: self.load_failed,
            credentials: self.credentials,
            address: self.address,
            user: self.user,
        };
        (engine, Action::Fail(failure))
    }

    fn leave(self) -> (next: (Engine, Action))
        requires
            self@.cursor < self@.methods.len(),
        ensures
            (next.0@, next.1@) == self@.leave(),
    {
        proof {
            use_type_invariant(&self);
        }
        let count = self.methods.len();
        assert(self.cursor < count);
        let at = self.cursor + 1;
        self.enter(at)
    }

    fn key_or_later(self) -> (next: (Engine, Action))
        requires
            self@.cursor < self@.methods.len(),
        ensures
            (next.0@, next.1@) == self@.key_or_later(),
    {
        if self.credentials.private_key && !self.key_dead {
            (self.at_stage(Stage::Key(KeyUse::PublicKey)), Action::LoadKey)
        } else {
            self.leave()
        }
    }

    fn certificate_or_later(self) -> (next: (Engine, Action))
        requires
            self@.cursor < self@.methods.len(),
        ensures
            (next.0@, next.1@) == self@.certificate_or_later(),
    {
        if self.credentials.private_key && !self.key_dead && self.credentials.certificate {
            (self.at_stage(Stage::Key(KeyUse::Certificate)), Action::LoadKey)
        } else {
            self.key_or_later()
        }
    }

    fn next_identity(self) -> (next: (Engine, Action))
        requires
            self@.cursor < self@.methods.len(),
        ensures
            (next.0@, next.1@) == self@.next_identity(),
    {
        proof {
            use_type_invariant(&self);
        }
        if self.next < self.order.len() {
            let place = self.order[self.next];
            let engine = Engine {
                stage: Stage::Identity,
                methods: self.methods,
                cursor: self.cursor,
                order: self.order,
                next: self.next + 1,
                attempts: self.attempts,
                key_dead: self.key_dead,
                load_failed: self.load_failed,
                credentials: self.credentials,
                address: self.address,
                user: self.user,
            };
            (engine, Action::TryIdentity(place))
        } else {
            self.certificate_or_later()
        }
    }

    fn load_failure(self) -> (noted: Engine)
        ensures
            noted@ == self@.load_failure(),
    {
        proof {
            use_type_invariant(&self);
        }
        Engine {
            stage: self.stage,
            methods: self.methods,
            cursor: self.cursor,
            order: self.order,
            next: self.next,
            attempts: self.attempts,
            key_dead: self.key_dead,
            load_failed: true,
            credentials: self.credentials,
            address: self.address,
            user: self.user,
        }
    }

    fn with_key(self, usage: KeyUse) -> (next: (Engine, Action))
        requires
            self@.cursor < self@.methods.len(),
        ensures
            (next.0@, next.1@) == self@.with_key(usage),
    {
        match usage {
            KeyUse::Certificate => (self.at_stage(Stage::Certificate), Action::LoadCertificate),
            KeyUse::PublicKey => (self.at_stage(Stage::KeyAuth), Action::TryPublicKey),
        }
    }

    fn without_key(self, usage: KeyUse) -> (next: (Engine, Action))
        requires
            self@.cursor < self@.methods.len(),
        ensures
            (next.0@, next.1@) == self@.without_key(usage),
    {
        match usage {
            KeyUse::Certificate => self.key_or_later(),
            KeyUse::PublicKey => self.leave(),
        }
    }

    fn succeed(self) -> (next: (Engine, Action))
        ensures
            (next.0@, next.1@) == self@.succeed(),
    {
        (self.at_stage(Stage::Authenticated), Action::Succeed)
    }

    /// Takes what came of the last action and says what to do next.
    pub fn step(self, event: Event) -> (next: (Engine, Action))
        ensures
            (next.0@, next.1@) == self@.step(event@),
            next.0@.wf(),
    {
        proof {
            use_type_invariant(&self);
        }
        let next = match self.stage {
            Stage::Start => match event {
                Event::Accepted => self.succeed(),
                Event::Rejected(methods) => {
                    let engine = Engine {
                        stage: self.stage,
                        methods,
                        cursor: 0,
                        order: self.order,
                        next: self.next,
                        attempts: self.attempts,
                        key_dead: self.key_dead,
                        load_failed: self.load_failed,
                        credentials: self.credentials,
                        address: self.address,
                        user: self.user,
                    };
                    engine.enter(0)
                },
                _ => {
                    let engine = Engine {
                        stage: self.stage,
                        methods: Vec::new(),
                        cursor: 0,
                        order: self.order,
                        next: self.next,
                        attempts: self.attempts,
                        key_dead: self.key_dead,
                        load_failed: self.load_failed,
                        credentials: self.credentials,
                        address: self.address,
                        user: self.user,
                    };
                    engine.enter(0)
                },
            },
            Stage::Agent => match event {
                Event::Identities(comments) => {
                    let order = order_identities(
                        &comments,
                        self.address.as_str(),
                        self.user.as_str(),
                    );
                    let engine = Engine {
                        stage: self.stage,
                        methods: self.methods,
                        cursor: self.cursor,
                        order,
                        next: 0,
                        attempts: self.attempts,
                        key_dead: self.key_dead,
                        load_failed: self.load_failed,
                        credentials: self.credentials,
                        address: self.address,
                        user: self.user,
                    };
                    engine.next_identity()
                },
                _ => self.certificate_or_later(),
            },
            Stage::Identity => match event {
                Event::Accepted => self.succeed(),
                _ => self.next_identity(),
            },
            Stage::Key(usage) => match event {
                Event::KeyLoaded => self.with_key(usage),
                Event::KeyEncrypted => {
                    let engine = Engine {
                        stage: Stage::Passphrase(usage),
                        methods: self.methods,
                        cursor: self.cursor,
                        order: self.order,
                        next: self.next,
                        attempts: 0,
                        key_dead: self.key_dead,
                        load_failed: self.load_failed,
                        credentials: self.credentials,
                        address: self.address,
                        user: self.user,
                    };
                    (engine, Action::AskPassphrase)
                },
                _ => self.load_failure().without_key(usage),
            },
            Stage::Passphrase(usage) => match event {
                Event::KeyLoaded => self.with_key(usage),
                Event::WrongPassphrase => {
                    let again = self.attempts < MAX_PASSPHRASE_ATTEMPTS - 1;
                    let engine = Engine {
                        stage: self.stage,
                        methods: self.methods,
                        cursor: self.cursor,
                        order: self.order,
                        next: self.next,
                        attempts: if again {
                            self.attempts + 1
                        } else {
                            MAX_PASSPHRASE_ATTEMPTS
                        },
                        key_dead: !again || self.key_dead,
                        load_failed: self.load_failed,
                        credentials: self.credentials,
                        address: self.address,
                        user: self.user,
                    };
                    if again {
                        (engine, Action::AskPassphrase)
                    } else {
                        engine.without_key(usage)
                    }
                },
                _ => self.load_failure().without_key(usage),
            },
            Stage::Certificate => match event {
                Event::CertificateLoaded => (
                    self.at_stage(Stage::CertificateAuth),
                    Action::TryCertificate,
                ),
                _ => self.load_failure().key_or_later(),
            },
            Stage::CertificateAuth => match event {
                Event::Accepted => self.succeed(),
                _ => self.key_or_later(),
            },
            Stage::KeyAuth => match event {
                Event::Accepted => self.succeed(),
                _ => self.leave(),
            },
            Stage::Interactive => match event {
                Event::Accepted => self.succeed(),
                Event::Prompts => (self, Action::AnswerPrompts),
                _ => self.leave(),
            },
            Stage::Password => match event {
                Event::Accepted => self.succeed(),
                _ => self.leave(),
            },
            Stage::Authenticated => (self, Action::Succeed),
            Stage::Failed => {
                let failure = self.failure();
                (self, Action::Fail(failure))
            },
        };
        proof {
            use_type_invariant(&next.0);
        }
        next
    }
}

impl EngineView {
    /// How far the stage is from the end of its method: a later stage of a
    /// method has a smaller number.
    pub open spec fn phase(self) -> int {
        match self.stage {
            Stage::Agent => 9,
            Stage::Identity => 8,
            Stage::Key(KeyUse::Certificate) => 7,
            Stage::Passphrase(KeyUse::Certificate) => 6,
            Stage::Certificate => 5,
            Stage::CertificateAuth => 4,
            Stage::Key(KeyUse::PublicKey) => 3,
            Stage::Passphrase(KeyUse::PublicKey) => 2,
            _ => 1,
        }
    }

    /// What is left to go through within the stage: the identities not yet
    /// tried, or the passphrases that may still be asked for.
    pub open spec fn inner(self) -> int {
        match self.stage {
            Stage::Identity => self.order.len() - self.next,
            Stage::Passphrase(_) => MAX_PASSPHRASE_ATTEMPTS - self.attempts,
            _ => 0,
        }
    }

    /// Whether `self` is closer to the end than `earlier`: fewer methods
    /// are left, or as many and the stage is a later one, or the same stage
    /// with less left to go through.
    pub open spec fn closer_than(self, earlier: EngineView) -> bool {
        let left = self.methods.len() - self.cursor;
        let left_earlier = earlier.methods.len() - earlier.cursor;
        left < left_earlier || (left == left_earlier && (self.phase() < earlier.phase() || (
        self.phase() == earlier.phase() && self.inner() < earlier.inner())))
    }

    /// Whether the client can take part in the method at the place `at`.
    pub open spec fn can_attempt(self, at: int) -> bool {
        match self.methods[at] {
            Method::PublicKey => self.public_key_usable(),
            Method::KeyboardInteractive => true,
            Method::Password => true,
            Method::Other => false,
        }
    }

    /// The state but for the stage and the place of the method in progress.
    pub open spec fn same_session(self, other: EngineView) -> bool {
        &&& self.methods == other.methods
        &&& self.order == other.order
        &&& self.next == other.next
        &&& self.attempts == other.attempts
        &&& self.key_dead == other.key_dead
        &&& self.load_failed == other.load_failed
        &&& self.credentials == other.credentials
        &&& self.address == other.address
        &&& self.user == other.user
    }
}

/// Entering at a place begins the first method from there on that the
/// client can take part in, and fails only where there is none. The
/// methods before it are passed over; nothing else changes.
pub proof fn lemma_enter(e: EngineView, at: int)
    requires
        e.wf(),
        0 <= at,
    ensures
        ({
            let (next, action) = e.enter(at);
            &&& next.wf()
            &&& next.same_session(e)
            &&& !(next.stage is Start || next.stage is Authenticated)
            &&& forall|i: int| at <= i < next.cursor ==> !e.can_attempt(i)
            &&& if next.stage is Failed {
                next.cursor == e.methods.len() && action == ActionView::Fail(e.failure())
            } else {
                at <= next.cursor < e.methods.len() && e.can_attempt(next.cursor) && (action
                    is QueryAgent || action is LoadKey || action is StartInteractive || action
                    is TryPassword) && !(next.stage is Identity || next.stage is Passphrase)
            }
        }),
    decreases e.methods.len() - at,
{
    if at < e.methods.len() {
        if !e.can_attempt(at) {
            lemma_enter(e, at + 1);
        }
    }
}

/// A method that the client cannot take part in is passed over, and the
/// password is tried as soon as its turn comes.
pub proof fn lemma_passes_over(e: EngineView, at: int)
    requires
        0 <= at < e.methods.len(),
    ensures
        !e.can_attempt(at) ==> e.enter(at) == e.enter(at + 1),
        e.methods[at] == Method::Password ==> e.enter(at) == (
            (EngineView { cursor: at, ..e }).at_stage(Stage::Password),
            ActionView::TryPassword,
        ),
{
}

/// Every step leads from a possible state to a possible state.
pub proof fn lemma_step_keeps_wf(e: EngineView, event: EventView)
    requires
        e.wf(),
    ensures
        e.step(event).0.wf(),
{
    lemma_step_progress(e, event);
}

/// Once the authentication has ended, nothing changes any more.
pub proof fn lemma_finished_stays(e: EngineView, event: EventView)
    requires
        e.finished(),
    ensures
        e.step(event).0 == e,
        e.stage is Authenticated ==> e.step(event).1 == ActionView::Succeed,
        e.stage is Failed ==> e.step(event).1 is Fail,
{
}

/// Where the server accepts an attempt, the client is authenticated.
pub proof fn lemma_accepted_authenticates(e: EngineView)
    requires
        e.stage is Start || e.stage is Identity || e.stage is CertificateAuth || e.stage is KeyAuth
            || e.stage is Interactive || e.stage is Password,
    ensures
        e.step(EventView::Accepted) == (e.at_stage(Stage::Authenticated), ActionView::Succeed),
{
}

/// While a method is in progress, a step either stays for a further round
/// of questions, or ends the authentication, or leads closer to the end:
/// the methods of the server stay as they are, none is gone back to,
/// and within a method no stage is entered twice. The authentication fails
/// only once every method has been gone through, and the failure names
/// the methods that the server offered. The passphrase is asked for only
/// while it was wrong fewer than three times. A key that was given up and
/// a load that failed stay on record.
pub proof fn lemma_step_progress(e: EngineView, event: EventView)
    requires
        e.wf(),
    ensures
        ({
            let (next, action) = e.step(event);
            &&& next.wf()
            &&& e.in_method() ==> next.methods == e.methods && next.cursor >= e.cursor
            &&& e.key_dead ==> next.key_dead
            &&& e.load_failed ==> next.load_failed
            &&& e.in_method() && !(e.stage is Interactive && event is Prompts)
                ==> next.finished() || next.closer_than(e)
            &&& next.stage is Failed ==> next.cursor == next.methods.len() && action
                == ActionView::Fail(next.failure())
            &&& next.stage is Authenticated ==> action == ActionView::Succeed
            &&& action is Fail ==> next.stage is Failed
            &&& action is Succeed ==> next.stage is Authenticated
            &&& action is AskPassphrase ==> next.stage is Passphrase && next.attempts
                < MAX_PASSPHRASE_ATTEMPTS
            &&& action matches ActionView::TryIdentity(place) ==> next.stage is Identity
                && next.next >= 1 && place == next.order[next.next - 1]
        }),
{
    let dead = EngineView {
        attempts: MAX_PASSPHRASE_ATTEMPTS as int,
        key_dead: true,
        ..e
    };
    match e.stage {
        Stage::Start => {
            match event {
                EventView::Accepted => {},
                EventView::Rejected(methods) => {
                    lemma_enter(EngineView { methods, cursor: 0, ..e }, 0);
                },
                _ => {
                    lemma_enter(EngineView { methods: Seq::empty(), cursor: 0, ..e }, 0);
                },
            }
        },
        Stage::Agent => {
            match event {
                EventView::Identities(comments) => {
                    let listed = EngineView {
                        order: identity_order(comments, e.address, e.user),
                        next: 0,
                        ..e
                    };
                    lemma_enter(listed, e.cursor + 1);
                },
                _ => {
                    lemma_enter(e, e.cursor + 1);
                },
            }
        },
        Stage::Authenticated => {},
        Stage::Failed => {},
        _ => {
            lemma_enter(e, e.cursor + 1);
            lemma_enter(dead, e.cursor + 1);
            lemma_enter(e.load_failure(), e.cursor + 1);
        },
    }
}

impl Method {
    /// The name of the method in a message to the user.
    pub open spec fn spec_name(self) -> Seq<char> {
        match self {
            Method::PublicKey => "publickey"@,
            Method::KeyboardInteractive => "keyboard-interactive"@,
            Method::Password => "password"@,
            Method::Other => "other"@,
        }
    }

    /// The name of the method in a message to the user.
    pub fn name(&self) -> (name: &'static str)
        ensures
            name@ == self.spec_name(),
    {
        match self {
            Method::PublicKey => "publickey",
            Method::KeyboardInteractive => "keyboard-interactive",
            Method::Password => "password",
            Method::Other => "other",
        }
    }
}

/// The names of the methods with a comma and a blank between each two.
pub open spec fn method_names(methods: Seq<Method>) -> Seq<char>
    decreases methods.len(),
{
    if methods.len() == 0 {
        Seq::empty()
    } else if methods.len() == 1 {
        methods[0].spec_name()
    } else {
        method_names(methods.drop_last()) + ", "@ + methods.last().spec_name()
    }
}

impl AuthFailureView {
    /// The line that tells the user why the authentication failed.
    pub open spec fn message(self) -> Seq<char> {
        match self {
            AuthFailureView::NoMethods => "No authentication method available"@,
            AuthFailureView::Exhausted {
                methods,
                passphrase_exhausted,
                load_failed,
            } => "Authentication failed (tried: "@ + method_names(methods) + ")"@
                + (if passphrase_exhausted {
                "; passphrase attempts exhausted"@
            } else {
                Seq::empty()
            }) + (if load_failed {
                "; credential file could not be loaded"@
            } else {
                Seq::empty()
            }),
        }
    }
}

impl AuthFailure {
    /// The line that tells the user why the authentication failed. It
    /// names the methods that the server offered.
    pub fn message(&self) -> (text: String)
        ensures
            text@ == self@.message(),
    {
        match self {
            AuthFailure::NoMethods => "No authentication method available".to_owned(),
            AuthFailure::Exhausted { methods, passphrase_exhausted, load_failed } => {
                let mut names = String::new();
                let mut i: usize = 0;
                assert(methods@.take(0) =~= Seq::<Method>::empty());
                while i < methods.len()
                    invariant
                        i <= methods.len(),
                        names@ == method_names(methods@.take(i as int)),
                    decreases methods.len() - i,
                {
                    let ghost before = methods@.take(i as int);
                    let ghost longer = methods@.take(i + 1);
                    assert(longer.drop_last() =~= before);
                    assert(longer.last() == methods@[i as int]);
                    if i > 0 {
                        names.append(", ");
                    }
                    names.append(methods[i].name());
                    assert(names@ =~= method_names(longer)) by {
                        if i == 0 {
                            assert(names@ =~= methods@[i as int].spec_name());
                        } else {
                            assert(names@ =~= method_names(before) + ", "@
                                + methods@[i as int].spec_name());
                        }
                    }
                    i = i + 1;
                }
                assert(methods@.take(i as int) =~= methods@);
                let mut text = "Authentication failed (tried: ".to_owned();
                text.append(names.as_str());
                text.append(")");
                if *passphrase_exhausted {
                    text.append("; passphrase attempts exhausted");
                }
                if *load_failed {
                    text.append("; credential file could not be loaded");
                }
                assert(text@ =~= self@.message());
                text
            },
        }
    }
}

/// The words that ask for the password of `user` on the server at
/// `address`.
pub open spec fn password_question(user: Seq<char>, address: Seq<char>) -> Seq<char> {
    user + seq!['@'] + address + "'s password: "@
}

/// The words that ask for the password.
pub fn password_prompt(user: &str, address: &str) -> (text: String)
    ensures
        text@ == password_question(user@, address@),
{
    let mut text = user.to_owned();
    push_char(&mut text, '@');
    text.append(address);
    text.append("'s password: ");
    text
}

/// The words that ask for the passphrase of the key at `path`.
pub open spec fn passphrase_question(path: Seq<char>) -> Seq<char> {
    "Enter passphrase for key '"@ + path + "': "@
}

/// The words that ask for the passphrase of a key.
pub fn passphrase_prompt(path: &str) -> (text: String)
    ensures
        text@ == passphrase_question(path@),
{
    let mut text = "Enter passphrase for key '".to_owned();
    text.append(path);
    text.append("': ");
    text
}

} // verus!
