use seashell::output::TestResult;
use seashell::relay::{
    mode_for, terminal_type, Action, Event, Incoming, Mode, Relay, Size, INPUT_BUFFER_SIZE,
    RESIZE_POLL_MILLIS,
};

const SIZE: Size = Size {
    width: 80,
    height: 24,
};

fn stop(eof: bool, failed: bool) -> Action {
    Action::Stop { eof, failed }
}

#[test]
fn mode_of_a_session() {
    assert_eq!(mode_for(&None), Mode::Interactive);
    assert_eq!(mode_for(&Some("uptime".into())), Mode::Command);
    assert_eq!(mode_for(&Some("".into())), Mode::Command);
}

#[test]
fn terminal_type_defaults_to_xterm() {
    assert_eq!(terminal_type(None), "xterm");
    assert_eq!(terminal_type(Some("screen-256color".into())), "screen-256color");
    assert_eq!(terminal_type(Some("".into())), "");
    assert_eq!(RESIZE_POLL_MILLIS, 200);
    assert_eq!(INPUT_BUFFER_SIZE, 4096);
}

#[test]
fn input_is_forwarded_until_it_ends() {
    let mut relay = Relay::new(Mode::Interactive, SIZE);
    assert!(relay.wants_input());
    assert_eq!(relay.step(Event::Input(12)), Action::Forward);
    assert_eq!(relay.step(Event::Input(4096)), Action::Forward);
    assert!(relay.wants_input());
    assert_eq!(relay.step(Event::Input(0)), Action::SendEof);
    assert!(!relay.wants_input());
    assert!(relay.input_closed && relay.eof_sent && !relay.stopped);
    // what is read after the end is not forwarded, and the end is told once
    assert_eq!(relay.step(Event::Input(5)), Action::Idle);
    assert_eq!(relay.step(Event::Input(0)), Action::Idle);
}

#[test]
fn remote_exit_sends_eof_unless_already_sent() {
    let mut relay = Relay::new(Mode::Interactive, SIZE);
    assert_eq!(relay.step(Event::Message(Incoming::ExitStatus)), stop(true, false));
    assert!(relay.stopped && relay.eof_sent);
    let mut relay = Relay::new(Mode::Interactive, SIZE);
    assert_eq!(relay.step(Event::Input(0)), Action::SendEof);
    assert_eq!(relay.step(Event::Message(Incoming::Data)), Action::Write);
    assert_eq!(relay.step(Event::Message(Incoming::ExitStatus)), stop(false, false));
    assert!(relay.stopped);
}

#[test]
fn closed_channel_ends_the_loop() {
    let mut relay = Relay::new(Mode::Interactive, SIZE);
    assert_eq!(relay.step(Event::Message(Incoming::Other)), Action::Idle);
    assert_eq!(relay.step(Event::Closed), stop(false, false));
    assert!(relay.stopped && !relay.eof_sent);
    // nothing happens once the loop has ended
    for event in [
        Event::Input(3),
        Event::Input(0),
        Event::Message(Incoming::Data),
        Event::Message(Incoming::ExitStatus),
        Event::Closed,
        Event::Tick(Some(Size { width: 1, height: 1 })),
        Event::Failed,
    ] {
        assert_eq!(relay.step(event), Action::Idle);
    }
    assert!(!relay.wants_input() && !relay.wants_ticks());
    assert_eq!((relay.width, relay.height), (80, 24));
}

#[test]
fn failure_ends_the_loop_with_the_error() {
    let mut relay = Relay::new(Mode::Interactive, SIZE);
    assert_eq!(relay.step(Event::Failed), stop(false, true));
    assert!(relay.stopped);
}

#[test]
fn resize_is_sent_only_when_the_size_changes() {
    let mut relay = Relay::new(Mode::Interactive, SIZE);
    assert!(relay.wants_ticks());
    assert_eq!(relay.step(Event::Tick(Some(SIZE))), Action::Idle);
    assert_eq!(relay.step(Event::Tick(None)), Action::Idle);
    let wider = Size { width: 120, height: 24 };
    assert_eq!(relay.step(Event::Tick(Some(wider))), Action::Resize(120, 24));
    assert_eq!((relay.width, relay.height), (120, 24));
    assert_eq!(relay.step(Event::Tick(Some(wider))), Action::Idle);
    let taller = Size { width: 120, height: 50 };
    assert_eq!(relay.step(Event::Tick(Some(taller))), Action::Resize(120, 50));
    assert_eq!(relay.step(Event::Tick(Some(SIZE))), Action::Resize(80, 24));
}

#[test]
fn command_mode_shows_output_and_forwards_nothing() {
    let mut relay = Relay::new(Mode::Command, SIZE);
    assert!(!relay.wants_input());
    assert!(!relay.wants_ticks());
    assert_eq!(relay.step(Event::Input(9)), Action::Idle);
    assert_eq!(relay.step(Event::Input(0)), Action::Idle);
    assert_eq!(relay.step(Event::Tick(Some(Size { width: 1, height: 2 }))), Action::Idle);
    assert_eq!(relay.step(Event::Message(Incoming::Data)), Action::Write);
    assert_eq!(relay.step(Event::Message(Incoming::Data)), Action::Write);
    assert_eq!(relay.step(Event::Message(Incoming::ExitStatus)), stop(false, false));
    assert!(relay.stopped && !relay.eof_sent && !relay.input_closed);
}

#[test]
fn eof_is_sent_at_most_once_in_a_long_run() {
    let events = [
        Event::Input(1),
        Event::Tick(Some(Size { width: 81, height: 24 })),
        Event::Input(0),
        Event::Input(0),
        Event::Message(Incoming::Data),
        Event::Input(7),
        Event::Message(Incoming::ExitStatus),
        Event::Message(Incoming::ExitStatus),
        Event::Input(0),
        Event::Closed,
    ];
    let mut relay = Relay::new(Mode::Interactive, SIZE);
    let mut eofs = 0;
    let mut stops = 0;
    for event in events {
        match relay.step(event) {
            Action::SendEof => eofs += 1,
            Action::Stop { eof, .. } => {
                stops += 1;
                if eof {
                    eofs += 1;
                }
            }
            _ => {}
        }
    }
    assert_eq!(eofs, 1);
    assert_eq!(stops, 1);
}

#[test]
fn test_result_message() {
    let ok = TestResult(Ok("/home/me/.seashell/config.yml".into()));
    assert_eq!(
        ok.message(),
        "The configuration file /home/me/.seashell/config.yml syntax is ok"
    );
    let bad = TestResult(Err("Bad yaml: line 3".into()));
    assert_eq!(bad.message(), "Bad yaml: line 3");
}

#[test]
fn test_result_from_an_outcome() {
    let ok: TestResult = Ok(String::from("/p")).into();
    assert_eq!(ok.message(), "The configuration file /p syntax is ok");
    let bad = TestResult::from(Err(String::from("no")));
    assert_eq!(bad.message(), "no");
}
