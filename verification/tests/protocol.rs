//! The wire handshake: framing, length cap, welcome token, and the
//! server-side connection machine from accept to shell.

use p2term_core::config::{P2TermdAccess, ShellCfg};
use p2term_core::errors::ErrorKind;
use p2term_core::keys::{generate_secret_key, HexConvert, PeerKey};
use p2term_core::proto::{
    alpn, check_welcome, confirm_welcome, default_term, encode_options_frame, parse_len_prefix,
    validate_options_len, welcome_token, ClientOpt, OPT_MAX_LEN,
};
use p2term_core::session::{ConnAction, ConnEvent, ConnState, P2TermConnectionHandler};

const PUBLIC_HEX: &str = "d75a980182b10ab7d54bfed3c964073a0ee172f3daa62325af021a68f707511a";

fn bash_policy() -> ShellCfg {
    ShellCfg::from_overrides(Some("/bin/bash".to_string()), None, vec![])
}

#[test]
fn protocol_constants() {
    assert_eq!(alpn(), b"p2term-proto".to_vec());
    assert_eq!(welcome_token(), b"welcome ".to_vec());
    assert_eq!(default_term(), "xterm-256color");
    assert_eq!(OPT_MAX_LEN, 4096);
}

#[test]
fn empty_options_frame_is_two_zero_bytes() {
    let frame = encode_options_frame(&vec![]).unwrap();
    assert_eq!(frame, vec![0x00, 0x00]);
}

#[test]
fn options_frame_is_length_prefixed() {
    let frame = encode_options_frame(&vec![0xaa, 0xbb, 0xcc]).unwrap();
    assert_eq!(frame, vec![0x03, 0x00, 0xaa, 0xbb, 0xcc]);
    // A 300-byte payload exercises the high prefix byte: 300 = 0x012c.
    let long = vec![7u8; 300];
    let frame = encode_options_frame(&long).unwrap();
    assert_eq!(frame[0], 0x2c);
    assert_eq!(frame[1], 0x01);
    assert_eq!(&frame[2..], &long[..]);
}

#[test]
fn options_frame_enforces_the_cap() {
    // Exactly at the cap is fine; one byte over is refused before anything
    // reaches the wire.
    let at_cap = vec![0u8; 4096];
    let frame = encode_options_frame(&at_cap).unwrap();
    assert_eq!(frame.len(), 2 + 4096);
    assert_eq!(frame[0], 0x00);
    assert_eq!(frame[1], 0x10);
    let over = vec![0u8; 4097];
    assert_eq!(encode_options_frame(&over), Err(ErrorKind::HandshakeOversize));
    let huge = vec![0u8; 65536];
    assert_eq!(encode_options_frame(&huge), Err(ErrorKind::HandshakeOversize));
}

#[test]
fn len_prefix_is_little_endian() {
    assert_eq!(parse_len_prefix(0x00, 0x00), 0);
    assert_eq!(parse_len_prefix(0x2c, 0x01), 300);
    // The oversize reject scenario: prefix [0x01 0x10] declares 4097.
    assert_eq!(parse_len_prefix(0x01, 0x10), 4097);
}

#[test]
fn options_len_capped_at_4096() {
    assert!(validate_options_len(0).is_ok());
    assert!(validate_options_len(4096).is_ok());
    assert_eq!(validate_options_len(4097), Err(ErrorKind::HandshakeOversize));
}

#[test]
fn welcome_is_checked_byte_for_byte() {
    assert!(check_welcome(&b"welcome ".to_vec()));
    assert!(!check_welcome(&b"welcome!".to_vec()));
    assert!(!check_welcome(&b"welcome".to_vec()));
    assert!(confirm_welcome(Some(&b"welcome ".to_vec())).is_ok());
    assert_eq!(
        confirm_welcome(Some(&b"goodbye ".to_vec())),
        Err(ErrorKind::HandshakeNoWelcome)
    );
    assert_eq!(confirm_welcome(None), Err(ErrorKind::HandshakeNoWelcome));
}

#[test]
fn default_client_opt_is_empty() {
    let opt = ClientOpt::default();
    assert!(opt.shell.is_none() && opt.cwd.is_none() && opt.term.is_none());
}

#[test]
fn zero_options_frame_means_defaults() {
    // The defaults scenario: a client that sends the zero-length options
    // frame gets the welcome at once — no payload is read or decoded — and
    // then the default shell.
    let handler = P2TermConnectionHandler::new(P2TermdAccess::Any, bash_policy());
    let peer = generate_secret_key().public_key();

    let (handler, action) = handler.step(ConnEvent::Peer(peer));
    assert!(matches!(action, ConnAction::ReadLenPrefix));

    let (handler, action) = handler.step(ConnEvent::LenPrefix(0x00, 0x00));
    assert!(matches!(action, ConnAction::WriteWelcome));

    let (handler, action) = handler.step(ConnEvent::WelcomeWritten);
    match action {
        ConnAction::SpawnShell { shell, cwd, term } => {
            assert_eq!(shell, "/bin/bash");
            assert_eq!(cwd, None);
            assert_eq!(term, None);
        },
        _ => panic!("expected the shell to spawn"),
    }
    assert!(matches!(handler.state, ConnState::Running));
}

#[test]
fn decoded_empty_options_reach_shell_too() {
    // A nonempty frame whose decoded options name nothing behaves like the
    // defaults: welcome, then the default shell.
    let handler = P2TermConnectionHandler::new(P2TermdAccess::Any, bash_policy());
    let peer = generate_secret_key().public_key();

    let (handler, action) = handler.step(ConnEvent::Peer(peer));
    assert!(matches!(action, ConnAction::ReadLenPrefix));

    let (handler, action) = handler.step(ConnEvent::LenPrefix(0x03, 0x00));
    assert!(matches!(action, ConnAction::ReadPayload(3)));

    let (handler, action) = handler.step(ConnEvent::Options(Some(ClientOpt::default())));
    assert!(matches!(action, ConnAction::WriteWelcome));

    let (handler, action) = handler.step(ConnEvent::WelcomeWritten);
    match action {
        ConnAction::SpawnShell { shell, cwd, term } => {
            assert_eq!(shell, "/bin/bash");
            assert_eq!(cwd, None);
            assert_eq!(term, None);
        },
        _ => panic!("expected the shell to spawn"),
    }
    assert!(matches!(handler.state, ConnState::Running));
}

#[test]
fn handshake_honours_client_options() {
    let policy = ShellCfg::from_overrides(
        Some("/bin/bash".to_string()),
        None,
        vec!["/bin/zsh".to_string()],
    );
    let handler = P2TermConnectionHandler::new(P2TermdAccess::Any, policy);
    let peer = generate_secret_key().public_key();
    let opt = ClientOpt {
        shell: Some("/bin/zsh".to_string()),
        cwd: Some("/tmp".to_string()),
        term: Some("vt100".to_string()),
    };

    let (handler, _) = handler.step(ConnEvent::Peer(peer));
    let (handler, _) = handler.step(ConnEvent::LenPrefix(0x10, 0x00));
    let (handler, _) = handler.step(ConnEvent::Options(Some(opt)));
    let (_, action) = handler.step(ConnEvent::WelcomeWritten);
    match action {
        ConnAction::SpawnShell { shell, cwd, term } => {
            assert_eq!(shell, "/bin/zsh");
            assert_eq!(cwd, Some("/tmp".to_string()));
            assert_eq!(term, Some("vt100".to_string()));
        },
        _ => panic!("expected the shell to spawn"),
    }
}

#[test]
fn oversize_frame_closes_without_shell() {
    // The oversize reject scenario: a declared length of 4097 closes the
    // connection and nothing is spawned, whatever comes later.
    let handler = P2TermConnectionHandler::new(P2TermdAccess::Any, bash_policy());
    let peer = generate_secret_key().public_key();

    let (handler, _) = handler.step(ConnEvent::Peer(peer));
    let (handler, action) = handler.step(ConnEvent::LenPrefix(0x01, 0x10));
    assert_eq!(action, ConnAction::Close(ErrorKind::HandshakeOversize));
    assert!(matches!(handler.state, ConnState::Closed { err: ErrorKind::HandshakeOversize }));

    let (handler, action) = handler.step(ConnEvent::Options(Some(ClientOpt::default())));
    assert!(matches!(action, ConnAction::Ignore));
    let (_, action) = handler.step(ConnEvent::WelcomeWritten);
    assert!(matches!(action, ConnAction::Ignore));
}

#[test]
fn unlisted_peer_closes_before_any_read() {
    // The access deny scenario: policy lists pk_A; pk_B is closed with
    // access denied and no read is ever requested on its stream.
    let access = P2TermdAccess::AllowedNodes(vec![
        PeerKey::try_from_hex(PUBLIC_HEX.as_bytes()).unwrap(),
    ]);
    let handler = P2TermConnectionHandler::new(access, bash_policy());
    let other = generate_secret_key().public_key();

    let (handler, action) = handler.step(ConnEvent::Peer(other));
    assert_eq!(action, ConnAction::Close(ErrorKind::AccessDenied));
    assert!(matches!(handler.state, ConnState::Closed { err: ErrorKind::AccessDenied }));
    let (_, action) = handler.step(ConnEvent::LenPrefix(0x00, 0x00));
    assert!(matches!(action, ConnAction::Ignore));
}

#[test]
fn listed_peer_is_served() {
    let listed = PeerKey::try_from_hex(PUBLIC_HEX.as_bytes()).unwrap();
    let access = P2TermdAccess::AllowedNodes(vec![
        PeerKey::try_from_hex(PUBLIC_HEX.as_bytes()).unwrap(),
    ]);
    let handler = P2TermConnectionHandler::new(access, bash_policy());
    let (_, action) = handler.step(ConnEvent::Peer(listed));
    assert!(matches!(action, ConnAction::ReadLenPrefix));
}

#[test]
fn refused_shell_gets_welcome_then_close() {
    // The shell policy scenario: the welcome still goes out (by wire
    // order), then the connection closes and no pty is ever opened.
    let handler = P2TermConnectionHandler::new(P2TermdAccess::Any, bash_policy());
    let peer = generate_secret_key().public_key();
    let opt = ClientOpt { shell: Some("/bin/zsh".to_string()), cwd: None, term: None };

    let (handler, _) = handler.step(ConnEvent::Peer(peer));
    let (handler, _) = handler.step(ConnEvent::LenPrefix(0x08, 0x00));
    let (handler, action) = handler.step(ConnEvent::Options(Some(opt)));
    assert!(matches!(action, ConnAction::WriteWelcome));
    let (handler, action) = handler.step(ConnEvent::WelcomeWritten);
    assert_eq!(action, ConnAction::Close(ErrorKind::ShellPolicy));
    assert!(matches!(handler.state, ConnState::Closed { err: ErrorKind::ShellPolicy }));
    let (_, action) = handler.step(ConnEvent::Options(Some(ClientOpt::default())));
    assert!(matches!(action, ConnAction::Ignore));
}

#[test]
fn undecodable_options_close_the_connection() {
    let handler = P2TermConnectionHandler::new(P2TermdAccess::Any, bash_policy());
    let peer = generate_secret_key().public_key();
    let (handler, _) = handler.step(ConnEvent::Peer(peer));
    let (handler, _) = handler.step(ConnEvent::LenPrefix(0x04, 0x00));
    let (_, action) = handler.step(ConnEvent::Options(None));
    assert_eq!(action, ConnAction::Close(ErrorKind::HandshakeBadOptions));
}

#[test]
fn truncated_handshake_closes_the_connection() {
    let handler = P2TermConnectionHandler::new(P2TermdAccess::Any, bash_policy());
    let peer = generate_secret_key().public_key();
    let (handler, _) = handler.step(ConnEvent::Peer(peer));
    let (_, action) = handler.step(ConnEvent::IoFailed);
    assert_eq!(action, ConnAction::Close(ErrorKind::HandshakeTruncated));
}
