//! The server-side connection handler as a state machine: access check,
//! then the one handshake exchange, then option validation, then — and only
//! then — the shell. The surrounding binary performs each returned action
//! (a read, the welcome write, the spawn) and feeds the outcome back as the
//! next event.

use vstd::prelude::*;

use crate::config::{P2TermdAccess, ShellCfg};
use crate::errors::ErrorKind;
use crate::keys::PeerKey;
use crate::proto::{u16_from_le, ClientOpt, OPT_MAX_LEN};

verus! {

/// Where a connection stands between being accepted and running a shell.
#[derive(Debug, PartialEq, Eq)]
pub enum ConnState {
    /// Accepted by the transport; the peer has not been checked yet.
    Start,
    /// Access passed; awaiting the two-byte length prefix.
    AwaitLen,
    /// Prefix read and within the cap; awaiting the payload.
    AwaitPayload {
        /// The length the prefix declared.
        declared_len: u16,
    },
    /// Options decoded; the welcome token is being written.
    AwaitWelcomeWritten {
        /// The decoded session options.
        opt: ClientOpt,
    },
    /// Handshake and validation done; the shell runs and the proxy loops
    /// own the stream.
    Running,
    /// The connection was closed with this error.
    Closed {
        /// Why it closed.
        err: ErrorKind,
    },
}

/// What happened on the connection: each event is the outcome of the
/// previous action.
#[derive(Debug, PartialEq, Eq)]
pub enum ConnEvent {
    /// The transport resolved the peer's authenticated key.
    Peer(PeerKey),
    /// The two bytes of the length prefix arrived.
    LenPrefix(u8, u8),
    /// The payload arrived and was decoded — or was not decodable.
    Options(Option<ClientOpt>),
    /// The welcome token went out in full.
    WelcomeWritten,
    /// A read or write failed during the handshake.
    IoFailed,
}

/// What the binary must do next on this connection.
#[derive(Debug, PartialEq, Eq)]
pub enum ConnAction {
    /// Read the two-byte length prefix.
    ReadLenPrefix,
    /// Read exactly this many payload bytes and decode them.
    ReadPayload(u16),
    /// Write the 8-byte welcome token.
    WriteWelcome,
    /// Spawn the session's shell and start the proxy loops.
    SpawnShell {
        /// The shell to run: the client's choice, else the default.
        shell: String,
        /// The client's working directory, if any.
        cwd: Option<String>,
        /// The client's terminal type, if any.
        term: Option<String>,
    },
    /// Close the connection for this reason.
    Close(ErrorKind),
    /// Nothing; the event does not apply to the state.
    Ignore,
}

/// The per-connection handler: the daemon's policies plus the connection's
/// progress.
pub struct P2TermConnectionHandler {
    /// Which peers may be served.
    pub access: P2TermdAccess,
    /// Which shells may run.
    pub shell_cfg: ShellCfg,
    /// Where this connection stands.
    pub state: ConnState,
}

/// The handler with its state replaced.
pub open spec fn with_state(fsm: P2TermConnectionHandler, state: ConnState) -> P2TermConnectionHandler {
    P2TermConnectionHandler { access: fsm.access, shell_cfg: fsm.shell_cfg, state }
}

/// Whether the options pass the shell policy: no shell named, or a shell on
/// the allow-list.
pub open spec fn opt_shell_ok(shell_cfg: ShellCfg, opt: ClientOpt) -> bool {
    opt.shell is None || shell_cfg.shell_allowed(opt.shell->Some_0@)
}

/// The transition table.
///
/// A disallowed peer is closed before any read. A declared length over the
/// cap closes as oversize before the payload is read. A zero-length frame
/// carries no payload to read or decode: it means the default options, and
/// the welcome goes straight out. An undecodable payload closes the
/// connection. The welcome is written after a good frame and before
/// validation (so a client with a refused shell still sees the welcome,
/// then the close). The shell is spawned only from the state in which
/// access, handshake and validation have all passed. A closed connection
/// absorbs every further event.
pub open spec fn conn_step(fsm: P2TermConnectionHandler, ev: ConnEvent) -> (
    P2TermConnectionHandler,
    ConnAction,
) {
    match (fsm.state, ev) {
        (ConnState::Start, ConnEvent::Peer(pk)) => if fsm.access.allows(pk@) {
            (with_state(fsm, ConnState::AwaitLen), ConnAction::ReadLenPrefix)
        } else {
            (
                with_state(fsm, ConnState::Closed { err: ErrorKind::AccessDenied }),
                ConnAction::Close(ErrorKind::AccessDenied),
            )
        },
        (ConnState::AwaitLen, ConnEvent::LenPrefix(b0, b1)) => {
            let len = u16_from_le(b0, b1);
            if len == 0 {
                (
                    with_state(
                        fsm,
                        ConnState::AwaitWelcomeWritten {
                            opt: ClientOpt { shell: None, cwd: None, term: None },
                        },
                    ),
                    ConnAction::WriteWelcome,
                )
            } else if len <= OPT_MAX_LEN {
                (
                    with_state(fsm, ConnState::AwaitPayload { declared_len: len }),
                    ConnAction::ReadPayload(len),
                )
            } else {
                (
                    with_state(fsm, ConnState::Closed { err: ErrorKind::HandshakeOversize }),
                    ConnAction::Close(ErrorKind::HandshakeOversize),
                )
            }
        },
        (ConnState::AwaitPayload { .. }, ConnEvent::Options(Some(opt))) => (
            with_state(fsm, ConnState::AwaitWelcomeWritten { opt }),
            ConnAction::WriteWelcome,
        ),
        (ConnState::AwaitPayload { .. }, ConnEvent::Options(None)) => (
            with_state(fsm, ConnState::Closed { err: ErrorKind::HandshakeBadOptions }),
            ConnAction::Close(ErrorKind::HandshakeBadOptions),
        ),
        (ConnState::AwaitWelcomeWritten { opt }, ConnEvent::WelcomeWritten) => if opt_shell_ok(
            fsm.shell_cfg,
            opt,
        ) {
            (
                with_state(fsm, ConnState::Running),
                ConnAction::SpawnShell {
                    shell: match opt.shell {
                        Some(s) => s,
                        None => fsm.shell_cfg.default_shell,
                    },
                    cwd: opt.cwd,
                    term: opt.term,
                },
            )
        } else {
            (
                with_state(fsm, ConnState::Closed { err: ErrorKind::ShellPolicy }),
                ConnAction::Close(ErrorKind::ShellPolicy),
            )
        },
        (ConnState::AwaitLen, ConnEvent::IoFailed) => (
            with_state(fsm, ConnState::Closed { err: ErrorKind::HandshakeTruncated }),
            ConnAction::Close(ErrorKind::HandshakeTruncated),
        ),
        (ConnState::AwaitPayload { .. }, ConnEvent::IoFailed) => (
            with_state(fsm, ConnState::Closed { err: ErrorKind::HandshakeTruncated }),
            ConnAction::Close(ErrorKind::HandshakeTruncated),
        ),
        (ConnState::AwaitWelcomeWritten { .. }, ConnEvent::IoFailed) => (
            with_state(fsm, ConnState::Closed { err: ErrorKind::HandshakeTruncated }),
            ConnAction::Close(ErrorKind::HandshakeTruncated),
        ),
        (_, _) => (fsm, ConnAction::Ignore),
    }
}

impl P2TermConnectionHandler {
    /// A handler for one freshly accepted connection, under these policies.
    pub fn new(access: P2TermdAccess, shell_cfg: ShellCfg) -> (r: P2TermConnectionHandler)
        ensures
            r.access == access && r.shell_cfg == shell_cfg && r.state matches ConnState::Start,
    {
        P2TermConnectionHandler { access, shell_cfg, state: ConnState::Start }
    }

    /// Feeds one event to the handler and returns what to do next, exactly
    /// as [`conn_step`] says.
    pub fn step(self, ev: ConnEvent) -> (r: (P2TermConnectionHandler, ConnAction))
        ensures
            r == conn_step(self, ev),
    {
        let P2TermConnectionHandler { access, shell_cfg, state } = self;
        match (state, ev) {
            (ConnState::Start, ConnEvent::Peer(pk)) => {
                if access.is_allowed(&pk) {
                    (
                        P2TermConnectionHandler { access, shell_cfg, state: ConnState::AwaitLen },
                        ConnAction::ReadLenPrefix,
                    )
                } else {
                    (
                        P2TermConnectionHandler {
                            access,
                            shell_cfg,
                            state: ConnState::Closed { err: ErrorKind::AccessDenied },
                        },
                        ConnAction::Close(ErrorKind::AccessDenied),
                    )
                }
            },
            (ConnState::AwaitLen, ConnEvent::LenPrefix(b0, b1)) => {
                let len = crate::proto::parse_len_prefix(b0, b1);
                if len == 0 {
                    (
                        P2TermConnectionHandler {
                            access,
                            shell_cfg,
                            state: ConnState::AwaitWelcomeWritten {
                                opt: ClientOpt { shell: None, cwd: None, term: None },
                            },
                        },
                        ConnAction::WriteWelcome,
                    )
                } else {
                    match crate::proto::validate_options_len(len) {
                        Ok(()) => (
                            P2TermConnectionHandler {
                                access,
                                shell_cfg,
                                state: ConnState::AwaitPayload { declared_len: len },
                            },
                            ConnAction::ReadPayload(len),
                        ),
                        Err(_) => (
                            P2TermConnectionHandler {
                                access,
                                shell_cfg,
                                state: ConnState::Closed { err: ErrorKind::HandshakeOversize },
                            },
                            ConnAction::Close(ErrorKind::HandshakeOversize),
                        ),
                    }
                }
            },
            (ConnState::AwaitPayload { .. }, ConnEvent::Options(Some(opt))) => (
                P2TermConnectionHandler {
                    access,
                    shell_cfg,
                    state: ConnState::AwaitWelcomeWritten { opt },
                },
                ConnAction::WriteWelcome,
            ),
            (ConnState::AwaitPayload { .. }, ConnEvent::Options(None)) => (
                P2TermConnectionHandler {
                    access,
                    shell_cfg,
                    state: ConnState::Closed { err: ErrorKind::HandshakeBadOptions },
                },
                ConnAction::Close(ErrorKind::HandshakeBadOptions),
            ),
            (ConnState::AwaitWelcomeWritten { opt }, ConnEvent::WelcomeWritten) => {
                match shell_cfg.validate_opt(&opt) {
                    Ok(()) => {
                        let ClientOpt { shell, cwd, term } = opt;
                        let shell = match shell {
                            Some(s) => s,
                            None => shell_cfg.default_shell.clone(),
                        };
                        (
                            P2TermConnectionHandler {
                                access,
                                shell_cfg,
                                state: ConnState::Running,
                            },
                            ConnAction::SpawnShell { shell, cwd, term },
                        )
                    },
                    Err(_) => (
                        P2TermConnectionHandler {
                            access,
                            shell_cfg,
                            state: ConnState::Closed { err: ErrorKind::ShellPolicy },
                        },
                        ConnAction::Close(ErrorKind::ShellPolicy),
                    ),
                }
            },
            (ConnState::AwaitLen, ConnEvent::IoFailed) => (
                P2TermConnectionHandler {
                    access,
                    shell_cfg,
                    state: ConnState::Closed { err: ErrorKind::HandshakeTruncated },
                },
                ConnAction::Close(ErrorKind::HandshakeTruncated),
            ),
            (ConnState::AwaitPayload { .. }, ConnEvent::IoFailed) => (
                P2TermConnectionHandler {
                    access,
                    shell_cfg,
                    state: ConnState::Closed { err: ErrorKind::HandshakeTruncated },
                },
                ConnAction::Close(ErrorKind::HandshakeTruncated),
            ),
            (ConnState::AwaitWelcomeWritten { .. }, ConnEvent::IoFailed) => (
                P2TermConnectionHandler {
                    access,
                    shell_cfg,
                    state: ConnState::Closed { err: ErrorKind::HandshakeTruncated },
                },
                ConnAction::Close(ErrorKind::HandshakeTruncated),
            ),
            (state, _) => (P2TermConnectionHandler { access, shell_cfg, state }, ConnAction::Ignore),
        }
    }
}

/// The handler after a whole event trace.
pub open spec fn conn_run(
    fsm: P2TermConnectionHandler,
    events: Seq<ConnEvent>,
) -> P2TermConnectionHandler
    decreases events.len(),
{
    if events.len() == 0 {
        fsm
    } else {
        conn_run(conn_step(fsm, events[0]).0, events.drop_first())
    }
}

/// The actions a whole event trace produces, one per event, in order.
pub open spec fn conn_actions(
    fsm: P2TermConnectionHandler,
    events: Seq<ConnEvent>,
) -> Seq<ConnAction>
    decreases events.len(),
{
    if events.len() == 0 {
        Seq::empty()
    } else {
        seq![conn_step(fsm, events[0]).1] + conn_actions(
            conn_step(fsm, events[0]).0,
            events.drop_first(),
        )
    }
}

/// A trace produces one action per event.
proof fn lemma_conn_actions_len(fsm: P2TermConnectionHandler, events: Seq<ConnEvent>)
    ensures
        conn_actions(fsm, events).len() == events.len(),
    decreases events.len(),
{
    if events.len() > 0 {
        lemma_conn_actions_len(conn_step(fsm, events[0]).0, events.drop_first());
    }
}

/// A closed connection is inert: no further event produces anything but
/// `Ignore`, and the state never changes again.
pub proof fn lemma_closed_inert(fsm: P2TermConnectionHandler, events: Seq<ConnEvent>)
    requires
        fsm.state matches ConnState::Closed { .. },
    ensures
        conn_run(fsm, events) == fsm,
        forall|i: int|
            0 <= i < events.len() ==> #[trigger] conn_actions(fsm, events)[i]
                == ConnAction::Ignore,
    decreases events.len(),
{
    lemma_conn_actions_len(fsm, events);
    if events.len() > 0 {
        assert(conn_step(fsm, events[0]) == (fsm, ConnAction::Ignore));
        lemma_closed_inert(fsm, events.drop_first());
        assert forall|i: int| 0 <= i < events.len() implies #[trigger] conn_actions(
            fsm,
            events,
        )[i] == ConnAction::Ignore by {
            if i > 0 {
                assert(conn_actions(fsm, events)[i] == conn_actions(fsm, events.drop_first())[i
                    - 1]);
            }
        }
    }
}

/// The shell is spawned only after the welcome went out: in any trace from
/// a fresh handler, every `SpawnShell` action is preceded by a
/// `WriteWelcome` action.
pub proof fn lemma_welcome_before_shell(
    fsm: P2TermConnectionHandler,
    events: Seq<ConnEvent>,
    i: int,
)
    requires
        fsm.state matches ConnState::Start,
        0 <= i < events.len(),
        conn_actions(fsm, events)[i] matches ConnAction::SpawnShell { .. },
    ensures
        exists|j: int|
            0 <= j < i && #[trigger] conn_actions(fsm, events)[j] == ConnAction::WriteWelcome,
{
    lemma_spawn_needs_welcome(fsm, events, i);
}

/// Whether the machine already owes the welcome's emission to an earlier
/// trace: true in the states entered by or after the `WriteWelcome` step.
spec fn past_welcome(state: ConnState) -> bool {
    state matches ConnState::AwaitWelcomeWritten { .. } || state matches ConnState::Running
}

/// In any trace, a `SpawnShell` at position `i` has a `WriteWelcome`
/// before it, unless the machine started past the welcome step already.
proof fn lemma_spawn_needs_welcome(fsm: P2TermConnectionHandler, events: Seq<ConnEvent>, i: int)
    requires
        0 <= i < events.len(),
        conn_actions(fsm, events)[i] matches ConnAction::SpawnShell { .. },
        !past_welcome(fsm.state),
    ensures
        exists|j: int|
            0 <= j < i && #[trigger] conn_actions(fsm, events)[j] == ConnAction::WriteWelcome,
    decreases events.len(),
{
    lemma_conn_actions_len(fsm, events);
    let (fsm1, a0) = conn_step(fsm, events[0]);
    lemma_conn_actions_len(fsm1, events.drop_first());
    if i == 0 {
        assert(conn_actions(fsm, events)[0] == a0);
        assert(!(a0 matches ConnAction::SpawnShell { .. }));
        assert(false);
    } else {
        assert(conn_actions(fsm, events)[i] == conn_actions(fsm1, events.drop_first())[i - 1]);
        if past_welcome(fsm1.state) {
            assert(a0 == ConnAction::WriteWelcome);
            assert(conn_actions(fsm, events)[0] == a0);
        } else {
            lemma_spawn_needs_welcome(fsm1, events.drop_first(), i - 1);
            let j = choose|j: int|
                0 <= j < i - 1 && #[trigger] conn_actions(fsm1, events.drop_first())[j]
                    == ConnAction::WriteWelcome;
            assert(conn_actions(fsm, events)[j + 1] == conn_actions(fsm1, events.drop_first())[j]);
        }
    }
}

/// The welcome goes out at most once per connection: no trace holds two
/// `WriteWelcome` actions.
pub proof fn lemma_welcome_at_most_once(
    fsm: P2TermConnectionHandler,
    events: Seq<ConnEvent>,
    i: int,
    j: int,
)
    requires
        fsm.state matches ConnState::Start,
        0 <= i < j < events.len(),
        conn_actions(fsm, events)[i] == ConnAction::WriteWelcome,
    ensures
        conn_actions(fsm, events)[j] != ConnAction::WriteWelcome,
{
    lemma_welcome_unique(fsm, events, i, j);
}

/// Whether the machine can still emit the welcome.
spec fn welcome_possible(state: ConnState) -> bool {
    !(past_welcome(state) || state matches ConnState::Closed { .. })
}

/// After a `WriteWelcome` the machine can never emit another one.
proof fn lemma_welcome_unique(fsm: P2TermConnectionHandler, events: Seq<ConnEvent>, i: int, j: int)
    requires
        0 <= i < j < events.len(),
        conn_actions(fsm, events)[i] == ConnAction::WriteWelcome,
    ensures
        conn_actions(fsm, events)[j] != ConnAction::WriteWelcome,
    decreases events.len(),
{
    lemma_conn_actions_len(fsm, events);
    let (fsm1, a0) = conn_step(fsm, events[0]);
    lemma_conn_actions_len(fsm1, events.drop_first());
    if i == 0 {
        assert(a0 == ConnAction::WriteWelcome);
        assert(past_welcome(fsm1.state));
        lemma_no_welcome_when_past(fsm1, events.drop_first(), j - 1);
        assert(conn_actions(fsm, events)[j] == conn_actions(fsm1, events.drop_first())[j - 1]);
    } else {
        assert(conn_actions(fsm, events)[i] == conn_actions(fsm1, events.drop_first())[i - 1]);
        lemma_welcome_unique(fsm1, events.drop_first(), i - 1, j - 1);
        assert(conn_actions(fsm, events)[j] == conn_actions(fsm1, events.drop_first())[j - 1]);
    }
}

/// A machine past the welcome step (or closed) never emits `WriteWelcome`.
proof fn lemma_no_welcome_when_past(fsm: P2TermConnectionHandler, events: Seq<ConnEvent>, k: int)
    requires
        0 <= k < events.len(),
        !welcome_possible(fsm.state),
    ensures
        conn_actions(fsm, events)[k] != ConnAction::WriteWelcome,
    decreases events.len(),
{
    lemma_conn_actions_len(fsm, events);
    let (fsm1, a0) = conn_step(fsm, events[0]);
    lemma_conn_actions_len(fsm1, events.drop_first());
    if k == 0 {
        assert(conn_actions(fsm, events)[0] == a0);
        assert(a0 != ConnAction::WriteWelcome);
    } else {
        assert(!welcome_possible(fsm1.state));
        lemma_no_welcome_when_past(fsm1, events.drop_first(), k - 1);
        assert(conn_actions(fsm, events)[k] == conn_actions(fsm1, events.drop_first())[k - 1]);
    }
}

/// The shell is spawned only for a peer that passed the access gate: in any
/// trace from a fresh handler, a `SpawnShell` action has an earlier `Peer`
/// event whose key the policy allows.
pub proof fn lemma_spawn_needs_allowed_peer(
    fsm: P2TermConnectionHandler,
    events: Seq<ConnEvent>,
    i: int,
)
    requires
        fsm.state matches ConnState::Start,
        0 <= i < events.len(),
        conn_actions(fsm, events)[i] matches ConnAction::SpawnShell { .. },
    ensures
        exists|j: int|
            0 <= j < i && (#[trigger] events[j] matches ConnEvent::Peer(pk) && fsm.access.allows(
                pk@,
            )),
    decreases events.len(),
{
    lemma_conn_actions_len(fsm, events);
    let (fsm1, a0) = conn_step(fsm, events[0]);
    lemma_conn_actions_len(fsm1, events.drop_first());
    if i == 0 {
        assert(!(a0 matches ConnAction::SpawnShell { .. }));
        assert(false);
    } else {
        assert(conn_actions(fsm, events)[i] == conn_actions(fsm1, events.drop_first())[i - 1]);
        match events[0] {
            ConnEvent::Peer(pk) => {
                if fsm.access.allows(pk@) {
                    assert(events[0] matches ConnEvent::Peer(p) && fsm.access.allows(p@));
                } else {
                    lemma_closed_inert(fsm1, events.drop_first());
                    assert(conn_actions(fsm1, events.drop_first())[i - 1] == ConnAction::Ignore);
                    assert(false);
                }
            },
            _ => {
                assert(fsm1 == fsm);
                lemma_spawn_needs_allowed_peer(fsm1, events.drop_first(), i - 1);
                let j = choose|j: int|
                    0 <= j < i - 1 && (#[trigger] events.drop_first()[j] matches ConnEvent::Peer(
                        pk,
                    ) && fsm1.access.allows(pk@));
                assert(events[j + 1] == events.drop_first()[j]);
                assert(events[j + 1] matches ConnEvent::Peer(pk) && fsm.access.allows(pk@));
            },
        }
    }
}

/// The machine never asks to read a payload above the cap: every
/// `ReadPayload` action carries a length the prefix declared and the cap
/// admitted.
pub proof fn lemma_payload_reads_capped(
    fsm: P2TermConnectionHandler,
    events: Seq<ConnEvent>,
    k: int,
    n: u16,
)
    requires
        0 <= k < events.len(),
        conn_actions(fsm, events)[k] == ConnAction::ReadPayload(n),
    ensures
        n <= OPT_MAX_LEN,
    decreases events.len(),
{
    lemma_conn_actions_len(fsm, events);
    let (fsm1, a0) = conn_step(fsm, events[0]);
    lemma_conn_actions_len(fsm1, events.drop_first());
    if k == 0 {
        assert(conn_actions(fsm, events)[0] == a0);
    } else {
        assert(conn_actions(fsm, events)[k] == conn_actions(fsm1, events.drop_first())[k - 1]);
        lemma_payload_reads_capped(fsm1, events.drop_first(), k - 1, n);
    }
}

/// The shell that is spawned passed validation: it is either on the
/// allow-list (the client named it and policy admitted it) or it is the
/// policy's own default.
pub proof fn lemma_spawned_shell_is_allowed(
    fsm: P2TermConnectionHandler,
    events: Seq<ConnEvent>,
    i: int,
)
    requires
        0 <= i < events.len(),
        conn_actions(fsm, events)[i] matches ConnAction::SpawnShell { .. },
    ensures
        conn_actions(fsm, events)[i] matches ConnAction::SpawnShell { shell, .. } && (
        fsm.shell_cfg.shell_allowed(shell@) || shell == fsm.shell_cfg.default_shell),
    decreases events.len(),
{
    lemma_conn_actions_len(fsm, events);
    let (fsm1, a0) = conn_step(fsm, events[0]);
    lemma_conn_actions_len(fsm1, events.drop_first());
    if i == 0 {
        assert(conn_actions(fsm, events)[0] == a0);
    } else {
        assert(conn_actions(fsm, events)[i] == conn_actions(fsm1, events.drop_first())[i - 1]);
        lemma_spawned_shell_is_allowed(fsm1, events.drop_first(), i - 1);
        assert(fsm1.shell_cfg == fsm.shell_cfg);
    }
}

/// A peer that policy refuses is closed with `AccessDenied` at once, and
/// nothing is ever read from — or written to — its stream: every later
/// action is `Ignore`.
pub proof fn lemma_access_denied_inert(
    fsm: P2TermConnectionHandler,
    events: Seq<ConnEvent>,
    pk: PeerKey,
)
    requires
        fsm.state matches ConnState::Start,
        events.len() > 0,
        events[0] == ConnEvent::Peer(pk),
        !fsm.access.allows(pk@),
    ensures
        conn_actions(fsm, events)[0] == ConnAction::Close(ErrorKind::AccessDenied),
        conn_run(fsm, events).state matches ConnState::Closed { err } && err
            == ErrorKind::AccessDenied,
        forall|i: int|
            0 < i < events.len() ==> #[trigger] conn_actions(fsm, events)[i]
                == ConnAction::Ignore,
{
    lemma_conn_actions_len(fsm, events);
    let (fsm1, a0) = conn_step(fsm, events[0]);
    lemma_closed_inert(fsm1, events.drop_first());
    assert(conn_actions(fsm, events)[0] == a0);
    assert forall|i: int| 0 < i < events.len() implies #[trigger] conn_actions(fsm, events)[i]
        == ConnAction::Ignore by {
        assert(conn_actions(fsm, events)[i] == conn_actions(fsm1, events.drop_first())[i - 1]);
    }
}

/// A length prefix over the cap closes the connection as oversize, and no
/// shell is ever spawned on it afterwards.
pub proof fn lemma_oversize_closes(
    fsm: P2TermConnectionHandler,
    events: Seq<ConnEvent>,
    b0: u8,
    b1: u8,
)
    requires
        fsm.state matches ConnState::AwaitLen,
        events.len() > 0,
        events[0] == ConnEvent::LenPrefix(b0, b1),
        u16_from_le(b0, b1) > OPT_MAX_LEN,
    ensures
        conn_actions(fsm, events)[0] == ConnAction::Close(ErrorKind::HandshakeOversize),
        conn_run(fsm, events).state matches ConnState::Closed { err } && err
            == ErrorKind::HandshakeOversize,
        forall|i: int|
            0 < i < events.len() ==> #[trigger] conn_actions(fsm, events)[i]
                == ConnAction::Ignore,
{
    lemma_conn_actions_len(fsm, events);
    let (fsm1, a0) = conn_step(fsm, events[0]);
    lemma_closed_inert(fsm1, events.drop_first());
    assert(conn_actions(fsm, events)[0] == a0);
    assert forall|i: int| 0 < i < events.len() implies #[trigger] conn_actions(fsm, events)[i]
        == ConnAction::Ignore by {
        assert(conn_actions(fsm, events)[i] == conn_actions(fsm1, events.drop_first())[i - 1]);
    }
}

/// A request for a shell the policy refuses is closed with `ShellPolicy`
/// after the welcome, and no shell is ever spawned on the connection.
pub proof fn lemma_shell_policy_closes(
    fsm: P2TermConnectionHandler,
    events: Seq<ConnEvent>,
    opt: ClientOpt,
)
    requires
        fsm.state == (ConnState::AwaitWelcomeWritten { opt }),
        events.len() > 0,
        events[0] == ConnEvent::WelcomeWritten,
        !opt_shell_ok(fsm.shell_cfg, opt),
    ensures
        conn_actions(fsm, events)[0] == ConnAction::Close(ErrorKind::ShellPolicy),
        conn_run(fsm, events).state matches ConnState::Closed { err } && err
            == ErrorKind::ShellPolicy,
        forall|i: int|
            0 < i < events.len() ==> #[trigger] conn_actions(fsm, events)[i]
                == ConnAction::Ignore,
{
    lemma_conn_actions_len(fsm, events);
    let (fsm1, a0) = conn_step(fsm, events[0]);
    lemma_closed_inert(fsm1, events.drop_first());
    assert(conn_actions(fsm, events)[0] == a0);
    assert forall|i: int| 0 < i < events.len() implies #[trigger] conn_actions(fsm, events)[i]
        == ConnAction::Ignore by {
        assert(conn_actions(fsm, events)[i] == conn_actions(fsm1, events.drop_first())[i - 1]);
    }
}

} // verus!
