use vstd::prelude::*;

verus! {

/// How a session is run once the client is authenticated.
#[derive(Clone, Copy, Debug, PartialEq, Eq, Structural)]
pub enum Mode {
    /// One remote command runs, and what it prints is shown.
    Command,
    /// A shell runs on a pseudo-terminal, and bytes go both ways.
    Interactive,
}

/// The mode of a session: that of a command where one was given.
pub fn mode_for(command: &Option<String>) -> (mode: Mode)
    ensures
        mode == (if command is Some {
            Mode::Command
        } else {
            Mode::Interactive
        }),
{
    match command {
        Some(_) => Mode::Command,
        None => Mode::Interactive,
    }
}

/// The terminal type that is asked for where the environment names none.
pub open spec fn default_terminal() -> Seq<char> {
    "xterm"@
}

/// The terminal type to ask the pseudo-terminal for: that of the
/// environment, or `xterm`.
pub fn terminal_type(environment: Option<String>) -> (name: String)
    ensures
        name@ == (match environment {
            Some(term) => term@,
            None => default_terminal(),
        }),
{
    match environment {
        Some(term) => term,
        None => "xterm".to_owned(),
    }
}

/// Milliseconds between two looks at the size of the terminal.
pub const RESIZE_POLL_MILLIS: u64 = 200;

/// The most bytes that are read from the local input at once.
pub const INPUT_BUFFER_SIZE: usize = 4096;

/// The size of a terminal, in character cells.
#[derive(Clone, Copy, Debug, PartialEq, Eq, Structural)]
pub struct Size {
    pub width: u16,
    pub height: u16,
}

/// What a channel delivers.
#[derive(Clone, Copy, Debug, PartialEq, Eq, Structural)]
pub enum Incoming {
    /// Bytes that the remote side printed.
    Data,
    /// The status with which the remote program ended.
    ExitStatus,
    /// Any other message.
    Other,
}

/// What happened while the relay waited.
#[derive(Clone, Copy, Debug, PartialEq, Eq, Structural)]
pub enum Event {
    /// The local input gave this many bytes; none means that it has ended.
    Input(usize),
    /// The channel delivered a message.
    Message(Incoming),
    /// The channel has closed.
    Closed,
    /// It is time to look at the size of the terminal, which is this where
    /// it could be read.
    Tick(Option<Size>),
    /// Reading the local input, writing the local output or sending on the
    /// channel has failed.
    Failed,
}

/// What the caller is to do about an event.
#[derive(Clone, Copy, Debug, PartialEq, Eq, Structural)]
pub enum Action {
    /// Nothing.
    Idle,
    /// Send the bytes that were read on the channel.
    Forward,
    /// Tell the channel that the local input has ended.
    SendEof,
    /// Write the bytes that came in to the local output, and flush it.
    Write,
    /// Tell the channel the new size of the terminal.
    Resize(u16, u16),
    /// Leave the loop and put the terminal back as it was. Where `eof` is
    /// set, tell the channel first that the local input has ended; where
    /// `failed` is set, the session ends with the error that was met.
    Stop { eof: bool, failed: bool },
}

impl Action {
    /// Whether the action tells the channel that the local input has ended.
    pub open spec fn sends_eof(self) -> bool {
        self == Action::SendEof || (self matches Action::Stop { eof, .. } && eof)
    }

    /// Whether the action ends the loop.
    pub open spec fn stops(self) -> bool {
        self is Stop
    }
}

/// The state of the loop that relays bytes between the local terminal and
/// the channel.
#[derive(Clone, Copy, Debug, PartialEq, Eq, Structural)]
pub struct Relay {
    /// How the session is run.
    pub mode: Mode,
    /// Whether the local input has ended, so that it is read no more.
    pub input_closed: bool,
    /// Whether the channel was told that the local input has ended.
    pub eof_sent: bool,
    /// The width of the terminal that the channel knows of.
    pub width: u16,
    /// The height of the terminal that the channel knows of.
    pub height: u16,
    /// Whether the loop has ended.
    pub stopped: bool,
}

impl Relay {
    /// The state in which the loop begins.
    pub open spec fn initial(mode: Mode, size: Size) -> Relay {
        Relay {
            mode,
            input_closed: false,
            eof_sent: false,
            width: size.width,
            height: size.height,
            stopped: false,
        }
    }

    /// Whether the local input is to be read: only in an interactive
    /// session, and only until it has ended.
    pub open spec fn reads_input(self) -> bool {
        self.mode == Mode::Interactive && !self.input_closed && !self.stopped
    }

    /// Whether the size of the terminal is watched.
    pub open spec fn watches_size(self) -> bool {
        self.mode == Mode::Interactive && !self.stopped
    }

    /// The state after the loop has ended.
    pub open spec fn stop(self, eof: bool) -> Relay {
        Relay { stopped: true, eof_sent: self.eof_sent || eof, ..self }
    }

    /// The state and the action that follow on `event`.
    pub open spec fn next(self, event: Event) -> (Relay, Action) {
        if self.stopped {
            (self, Action::Idle)
        } else {
            match event {
                Event::Input(count) => if !self.reads_input() {
                    (self, Action::Idle)
                } else if count == 0 {
                    if self.eof_sent {
                        (Relay { input_closed: true, ..self }, Action::Idle)
                    } else {
                        (Relay { input_closed: true, eof_sent: true, ..self }, Action::SendEof)
                    }
                } else {
                    (self, Action::Forward)
                },
                Event::Message(Incoming::Data) => (self, Action::Write),
                Event::Message(Incoming::ExitStatus) => {
                    let eof = self.mode == Mode::Interactive && !self.eof_sent;
                    (self.stop(eof), Action::Stop { eof, failed: false })
                },
                Event::Message(Incoming::Other) => (self, Action::Idle),
                Event::Closed => (self.stop(false), Action::Stop { eof: false, failed: false }),
                Event::Tick(size) => match size {
                    Some(size) => if self.watches_size() && (size.width, size.height) != (
                        self.width,
                        self.height,
                    ) {
                        (
                            Relay { width: size.width, height: size.height, ..self },
                            Action::Resize(size.width, size.height),
                        )
                    } else {
                        (self, Action::Idle)
                    },
                    None => (self, Action::Idle),
                },
                Event::Failed => (self.stop(false), Action::Stop { eof: false, failed: true }),
            }
        }
    }

    /// The state in which the loop begins.
    pub fn new(mode: Mode, size: Size) -> (relay: Relay)
        ensures
            relay == Relay::initial(mode, size),
    {
        Relay {
            mode,
            input_closed: false,
            eof_sent: false,
            width: size.width,
            height: size.height,
            stopped: false,
        }
    }

    /// Whether the local input is to be read.
    pub fn wants_input(&self) -> (wanted: bool)
        ensures
            wanted == self.reads_input(),
    {
        match self.mode {
            Mode::Interactive => !self.input_closed && !self.stopped,
            Mode::Command => false,
        }
    }

    /// Whether the size of the terminal is to be watched.
    pub fn wants_ticks(&self) -> (wanted: bool)
        ensures
            wanted == self.watches_size(),
    {
        match self.mode {
            Mode::Interactive => !self.stopped,
            Mode::Command => false,
        }
    }

    /// Takes an event, moves to the state that follows, and says what to
    /// do about the event.
    pub fn step(&mut self, event: Event) -> (action: Action)
        ensures
            (*final(self), action) == old(self).next(event),
    {
        if self.stopped {
            return Action::Idle;
        }
        match event {
            Event::Input(count) => {
                if !self.wants_input() {
                    Action::Idle
                } else if count == 0 {
                    self.input_closed = true;
                    if self.eof_sent {
                        Action::Idle
                    } else {
                        self.eof_sent = true;
                        Action::SendEof
                    }
                } else {
                    Action::Forward
                }
            },
            Event::Message(Incoming::Data) => Action::Write,
            Event::Message(Incoming::ExitStatus) => {
                let eof = match self.mode {
                    Mode::Interactive => !self.eof_sent,
                    Mode::Command => false,
                };
                self.stopped = true;
                if eof {
                    self.eof_sent = true;
                }
                Action::Stop { eof, failed: false }
            },
            Event::Message(Incoming::Other) => Action::Idle,
            Event::Closed => {
                self.stopped = true;
                Action::Stop { eof: false, failed: false }
            },
            Event::Tick(size) => {
                match size {
                    Some(size) => {
                        if self.wants_ticks() && (size.width != self.width || size.height
                            != self.height) {
                            self.width = size.width;
                            self.height = size.height;
                            Action::Resize(size.width, size.height)
                        } else {
                            Action::Idle
                        }
                    },
                    None => Action::Idle,
                }
            },
            Event::Failed => {
                self.stopped = true;
                Action::Stop { eof: false, failed: true }
            },
        }
    }
}

/// The actions that a run of events gives, from the state `relay` on.
pub open spec fn run(relay: Relay, events: Seq<Event>) -> Seq<Action>
    decreases events.len(),
{
    if events.len() == 0 {
        Seq::empty()
    } else {
        seq![relay.next(events[0]).1] + run(relay.next(events[0]).0, events.drop_first())
    }
}

/// The state after a run of events.
pub open spec fn state_after(relay: Relay, events: Seq<Event>) -> Relay
    decreases events.len(),
{
    if events.len() == 0 {
        relay
    } else {
        state_after(relay.next(events[0]).0, events.drop_first())
    }
}

/// How many of the actions tell the channel that the local input has
/// ended.
pub open spec fn eof_count(actions: Seq<Action>) -> nat
    decreases actions.len(),
{
    if actions.len() == 0 {
        0
    } else {
        (if actions[0].sends_eof() {
            1nat
        } else {
            0nat
        }) + eof_count(actions.drop_first())
    }
}

/// How many of the actions end the loop.
pub open spec fn stop_count(actions: Seq<Action>) -> nat
    decreases actions.len(),
{
    if actions.len() == 0 {
        0
    } else {
        (if actions[0].stops() {
            1nat
        } else {
            0nat
        }) + stop_count(actions.drop_first())
    }
}

/// One step tells the channel of the end of the input only where it has
/// not been told before, and what was once so stays so: the input stays
/// closed, the channel stays told, the loop stays ended.
pub proof fn lemma_step_is_monotone(relay: Relay, event: Event)
    ensures
        ({
            let (after, action) = relay.next(event);
            &&& action.sends_eof() ==> !relay.eof_sent && after.eof_sent
            &&& action.stops() ==> !relay.stopped && after.stopped
            &&& relay.eof_sent ==> after.eof_sent
            &&& relay.input_closed ==> after.input_closed
            &&& relay.stopped ==> after == relay && action == Action::Idle
            &&& after.mode == relay.mode
            &&& action == Action::Forward ==> relay.reads_input()
            &&& action is Resize ==> relay.watches_size() && action == Action::Resize(
                after.width,
                after.height,
            ) && (after.width, after.height) != (relay.width, relay.height)
        }),
{
}

/// Whatever happens, the channel is told at most once that the local input
/// has ended, the loop ends at most once, and neither happens again once
/// it has happened.
pub proof fn lemma_eof_at_most_once(relay: Relay, events: Seq<Event>)
    ensures
        eof_count(run(relay, events)) <= 1,
        relay.eof_sent ==> eof_count(run(relay, events)) == 0,
        stop_count(run(relay, events)) <= 1,
        relay.stopped ==> stop_count(run(relay, events)) == 0,
    decreases events.len(),
{
    if events.len() > 0 {
        let (after, action) = relay.next(events[0]);
        lemma_step_is_monotone(relay, events[0]);
        lemma_eof_at_most_once(after, events.drop_first());
        let rest = run(after, events.drop_first());
        assert((seq![action] + rest).drop_first() =~= rest);
    }
}

/// Where an interactive session ends because the remote program has ended,
/// the channel has been told by then that the local input has ended.
pub proof fn lemma_eof_before_remote_exit(relay: Relay)
    requires
        relay.mode == Mode::Interactive,
        !relay.stopped,
    ensures
        ({
            let (after, action) = relay.next(Event::Message(Incoming::ExitStatus));
            after.stopped && after.eof_sent && action == (Action::Stop {
                eof: !relay.eof_sent,
                failed: false,
            })
        }),
{
}

/// A session that runs a command forwards no local input and tells the
/// channel nothing of it, whatever happens.
pub proof fn lemma_command_forwards_nothing(relay: Relay, event: Event)
    requires
        relay.mode == Mode::Command,
    ensures
        ({
            let action = relay.next(event).1;
            action != Action::Forward && !action.sends_eof() && !(action is Resize)
        }),
{
}

} // verus!
