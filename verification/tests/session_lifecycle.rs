//! The proxy-loop decisions, the error-chain rendering, the stream handles,
//! and the shutdown state machine.

use p2term_core::errors::{unpack, ErrFmt};
use p2term_core::handles::{P2TermClientHandle, P2TermServerHandle};
use p2term_core::keys::generate_secret_key;
use p2term_core::proxy::{
    input_step, pump_input, pump_output, session_outcome, shell_message_bytes, shell_message_for,
    InputAction, ReadEvent, SessionEnd, ShellMessage,
};
use p2term_core::shutdown::{DaemonAction, DaemonEvent, ShutdownFsm};

#[test]
fn input_step_policy() {
    assert!(matches!(
        input_step(ReadEvent::Data(vec![1, 2])),
        InputAction::Forward(c) if c == vec![1, 2]
    ));
    assert!(matches!(input_step(ReadEvent::Eof), InputAction::StopOk));
    assert!(matches!(input_step(ReadEvent::NotConnected), InputAction::StopOk));
    assert!(matches!(input_step(ReadEvent::Failed), InputAction::StopErr));
}

#[test]
fn session_ends_per_policy_table() {
    assert!(matches!(session_outcome(true, true), SessionEnd::CloseNormal));
    assert!(matches!(session_outcome(true, false), SessionEnd::CloseNormal));
    assert!(matches!(session_outcome(false, true), SessionEnd::CloseNormal));
    assert!(matches!(session_outcome(false, false), SessionEnd::DrainThenFail));
}

#[test]
fn shell_messages_carry_the_bytes_unchanged() {
    assert!(shell_message_for(vec![]).is_none());
    match shell_message_for(vec![0x03]) {
        Some(ShellMessage::Byte(b)) => assert_eq!(b, 0x03),
        _ => panic!("a single byte travels as a bare byte"),
    }
    match shell_message_for(b"echo hi\n".to_vec()) {
        Some(m @ ShellMessage::Chunk(_)) => {
            assert_eq!(shell_message_bytes(m), b"echo hi\n".to_vec());
        },
        _ => panic!("a chunk travels as a chunk"),
    }
    assert_eq!(shell_message_bytes(ShellMessage::Byte(7)), vec![7]);
}

#[test]
fn input_pump_preserves_bytes_and_order() {
    // The round-trip scenario's client→shell half: typed bytes arrive at
    // the shell in order, and EOF ends the direction cleanly.
    let events = vec![
        ReadEvent::Data(b"echo".to_vec()),
        ReadEvent::Data(b" hi\n".to_vec()),
        ReadEvent::Eof,
        ReadEvent::Data(b"never".to_vec()),
    ];
    let (bytes, clean) = pump_input(events);
    assert_eq!(bytes, b"echo hi\n".to_vec());
    assert!(clean);
}

#[test]
fn input_pump_reports_failures() {
    let events = vec![ReadEvent::Data(vec![1]), ReadEvent::Failed];
    let (bytes, clean) = pump_input(events);
    assert_eq!(bytes, vec![1]);
    assert!(!clean);

    let events = vec![ReadEvent::Data(vec![2]), ReadEvent::NotConnected];
    let (bytes, clean) = pump_input(events);
    assert_eq!(bytes, vec![2]);
    assert!(clean);
}

#[test]
fn output_pump_writes_chunks_whole_and_in_order() {
    // The round-trip scenario's shell→client half.
    let chunks = vec![b"$ ".to_vec(), b"hi".to_vec(), b"\n".to_vec()];
    assert_eq!(pump_output(chunks), b"$ hi\n".to_vec());
    assert_eq!(pump_output(vec![]), Vec::<u8>::new());
}

#[test]
fn error_chain_renders_joined() {
    let fmt = unpack(vec![
        "failed to serve client".to_string(),
        "handshake failed".to_string(),
        "stream reset".to_string(),
    ]);
    assert_eq!(fmt.render(), "failed to serve client -> handshake failed -> stream reset");
}

#[test]
fn error_chain_renders_edge_cases() {
    assert_eq!(unpack(vec![]).render(), "");
    assert_eq!(unpack(vec!["alone".to_string()]).render(), "alone");
    let fmt = ErrFmt { chain: vec!["a".to_string(), "b".to_string()] };
    assert_eq!(fmt.render(), "a -> b");
}

#[test]
fn server_handle_decomposes_in_order() {
    let handle = P2TermServerHandle::new("writer", "reader");
    let (w, r) = handle.decompose();
    assert_eq!(w, "writer");
    assert_eq!(r, "reader");
}

#[test]
fn client_handle_decomposes_in_order() {
    let peer = generate_secret_key().public_key();
    let handle = P2TermClientHandle::new(peer, 1u32, 2u64);
    let (w, r) = handle.decompose();
    assert_eq!(w, 1u32);
    assert_eq!(r, 2u64);
}

#[test]
fn first_signal_begins_drain() {
    let mut fsm = ShutdownFsm::new();
    assert_eq!(fsm.on_event(DaemonEvent::Signal), DaemonAction::BeginDrain);
}

#[test]
fn graceful_shutdown_on_router_exit() {
    // The graceful shutdown scenario: one signal, the router drains and
    // exits, the daemon exits normally.
    let mut fsm = ShutdownFsm::new();
    assert_eq!(fsm.on_event(DaemonEvent::Signal), DaemonAction::BeginDrain);
    assert_eq!(fsm.on_event(DaemonEvent::RouterExited), DaemonAction::GracefulExit);
}

#[test]
fn second_signal_forces_exit() {
    // The force shutdown scenario: a second signal within the drain window
    // exits at once.
    let mut fsm = ShutdownFsm::new();
    assert_eq!(fsm.on_event(DaemonEvent::Signal), DaemonAction::BeginDrain);
    assert_eq!(fsm.on_event(DaemonEvent::Signal), DaemonAction::ForceExit);
}

#[test]
fn drain_deadline_forces_exit() {
    let mut fsm = ShutdownFsm::new();
    assert_eq!(fsm.on_event(DaemonEvent::Signal), DaemonAction::BeginDrain);
    assert_eq!(fsm.on_event(DaemonEvent::TimerElapsed), DaemonAction::ForceExit);
}

#[test]
fn router_exit_while_running_ends_the_daemon() {
    let mut fsm = ShutdownFsm::new();
    assert_eq!(fsm.on_event(DaemonEvent::RouterExited), DaemonAction::GracefulExit);
    // A stopped daemon ignores whatever comes later.
    assert_eq!(fsm.on_event(DaemonEvent::Signal), DaemonAction::Continue);
}

#[test]
fn deadline_while_running_is_ignored() {
    let mut fsm = ShutdownFsm::new();
    assert_eq!(fsm.on_event(DaemonEvent::TimerElapsed), DaemonAction::Continue);
}
