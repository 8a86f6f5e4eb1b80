//! The decisions of the two proxy loops that bridge a session's stream to
//! the PTY: what each read outcome means, how typed bytes become PTY
//! messages without loss, and how the session ends when the loops do.

use vstd::prelude::*;

verus! {

/// The bound of each PTY bridge queue; a full input queue backpressures the
/// proxy loop.
pub const PTY_QUEUE_BOUND: usize = 128;

/// The bound of the queue that carries the PTY threads' failures out.
pub const PTY_ERR_QUEUE_BOUND: usize = 2;

/// How many bytes one PTY or stream read may hand over at a time.
pub const READ_CHUNK_LEN: usize = 4096;

/// What one read on the session's input path produced: a chunk of bytes,
/// a clean end of stream, the transport's *not-connected* condition (a clean
/// peer close), or any other failure.
#[derive(Debug, PartialEq, Eq)]
pub enum ReadEvent {
    /// Bytes arrived.
    Data(Vec<u8>),
    /// The stream ended (a zero-length read).
    Eof,
    /// The peer is gone; treated as a clean close, not a failure.
    NotConnected,
    /// Any other stream error.
    Failed,
}

/// What the input loop does with one read outcome.
#[derive(Debug, PartialEq, Eq)]
pub enum InputAction {
    /// Hand the chunk onward to the PTY input queue.
    Forward(Vec<u8>),
    /// Stop the loop, counting the direction as cleanly closed.
    StopOk,
    /// Stop the loop, counting the direction as failed.
    StopErr,
}

/// The input loop's policy: data is forwarded; EOF and *not-connected* are
/// clean stops; anything else is a failing stop.
pub open spec fn input_step_spec(ev: ReadEvent) -> InputAction {
    match ev {
        ReadEvent::Data(chunk) => InputAction::Forward(chunk),
        ReadEvent::Eof => InputAction::StopOk,
        ReadEvent::NotConnected => InputAction::StopOk,
        ReadEvent::Failed => InputAction::StopErr,
    }
}

/// Decides what one read outcome means for the input loop.
pub fn input_step(ev: ReadEvent) -> (a: InputAction)
    ensures
        a == input_step_spec(ev),
{
    match ev {
        ReadEvent::Data(chunk) => InputAction::Forward(chunk),
        ReadEvent::Eof => InputAction::StopOk,
        ReadEvent::NotConnected => InputAction::StopOk,
        ReadEvent::Failed => InputAction::StopErr,
    }
}

/// How a server session ends, given how its two loops ended.
#[derive(Debug, PartialEq, Eq)]
pub enum SessionEnd {
    /// A normal close: at most one direction failed.
    CloseNormal,
    /// Both directions failed: drain the PTY threads' pending errors, then
    /// report the session as failed.
    DrainThenFail,
}

/// The server's session-end policy: a session only counts as failed
/// when the input loop and the output loop both failed; one-sided closure
/// is a normal end.
pub fn session_outcome(input_ok: bool, output_ok: bool) -> (r: SessionEnd)
    ensures
        r == if !input_ok && !output_ok {
            SessionEnd::DrainThenFail
        } else {
            SessionEnd::CloseNormal
        },
{
    if !input_ok && !output_ok {
        SessionEnd::DrainThenFail
    } else {
        SessionEnd::CloseNormal
    }
}

/// One message on the PTY input queue. The two shapes exist only to avoid
/// allocating for single keystrokes; they carry the same bytes either way.
#[derive(Debug, PartialEq, Eq)]
pub enum ShellMessage {
    /// A single typed byte.
    Byte(u8),
    /// A chunk of bytes.
    Chunk(Vec<u8>),
}

/// The bytes a PTY message carries.
pub open spec fn message_bytes(m: ShellMessage) -> Seq<u8> {
    match m {
        ShellMessage::Byte(b) => seq![b],
        ShellMessage::Chunk(c) => c@,
    }
}

/// Shapes a chunk for the PTY input queue: nothing for an empty chunk, a
/// bare byte for a single one, the chunk itself otherwise — never changing
/// the bytes.
pub fn shell_message_for(chunk: Vec<u8>) -> (r: Option<ShellMessage>)
    ensures
        r is None <==> chunk@.len() == 0,
        r is Some ==> message_bytes(r->Some_0) == chunk@,
{
    if chunk.len() == 0 {
        None
    } else if chunk.len() == 1 {
        let b = chunk[0];
        proof {
            assert(seq![chunk@[0]] =~= chunk@);
        }
        Some(ShellMessage::Byte(b))
    } else {
        Some(ShellMessage::Chunk(chunk))
    }
}

/// Unwraps a PTY message into the bytes the writer thread writes.
pub fn shell_message_bytes(m: ShellMessage) -> (r: Vec<u8>)
    ensures
        r@ == message_bytes(m),
{
    match m {
        ShellMessage::Byte(b) => {
            let mut v: Vec<u8> = Vec::new();
            v.push(b);
            proof {
                assert(v@ =~= seq![b]);
            }
            v
        },
        ShellMessage::Chunk(c) => c,
    }
}

/// The bytes the input loop forwards to the PTY, reading events in order
/// and stopping at the first event that is not data.
pub open spec fn forwarded_input(events: Seq<ReadEvent>) -> Seq<u8>
    decreases events.len(),
{
    if events.len() == 0 {
        Seq::empty()
    } else {
        match events[0] {
            ReadEvent::Data(chunk) => chunk@ + forwarded_input(events.drop_first()),
            _ => Seq::empty(),
        }
    }
}

/// Whether the input loop, fed these events in order, stops cleanly: it
/// does unless the first non-data event is a failure.
pub open spec fn input_clean(events: Seq<ReadEvent>) -> bool
    decreases events.len(),
{
    if events.len() == 0 {
        true
    } else {
        match events[0] {
            ReadEvent::Data(_) => input_clean(events.drop_first()),
            ReadEvent::Failed => false,
            _ => true,
        }
    }
}

/// The input loop over a finite event trace: applies [`input_step`] to each
/// event in order, gathering every forwarded byte, until a stop. Returns the
/// forwarded bytes and whether the stop was clean.
///
/// The forwarded bytes are exactly the data chunks before the first
/// terminator, concatenated in arrival order: one direction of a session
/// neither loses, reorders nor invents bytes.
#[verifier::loop_isolation(false)]
pub fn pump_input(events: Vec<ReadEvent>) -> (r: (Vec<u8>, bool))
    ensures
        r.0@ == forwarded_input(events@),
        r.1 == input_clean(events@),
{
    let ghost orig = events@;
    let mut events = events;
    let mut acc: Vec<u8> = Vec::new();
    while events.len() > 0
        invariant
            forwarded_input(orig) == acc@ + forwarded_input(events@),
            input_clean(orig) == input_clean(events@),
        decreases events@.len(),
    {
        let ghost pre = events@;
        let ev = events.remove(0);
        proof {
            assert(events@ =~= pre.drop_first());
        }
        match input_step(ev) {
            InputAction::Forward(chunk) => {
                let mut chunk = chunk;
                acc.append(&mut chunk);
            },
            InputAction::StopOk => {
                return (acc, true);
            },
            InputAction::StopErr => {
                return (acc, false);
            },
        }
    }
    (acc, true)
}

/// The bytes the output loop writes to the stream: every PTY chunk, whole
/// and in order.
pub fn pump_output(chunks: Vec<Vec<u8>>) -> (r: Vec<u8>)
    ensures
        r@ == chunks.deep_view().flatten(),
{
    let ghost dv = chunks.deep_view();
    let mut chunks = chunks;
    let mut acc: Vec<u8> = Vec::new();
    proof {
        assert(dv =~= chunks.deep_view());
    }
    while chunks.len() > 0
        invariant
            dv.flatten() == acc@ + chunks.deep_view().flatten(),
        decreases chunks@.len(),
    {
        let ghost pre = chunks.deep_view();
        let mut chunk = chunks.remove(0);
        proof {
            assert(chunks.deep_view() =~= pre.drop_first());
            assert(pre.first() == chunk@);
        }
        acc.append(&mut chunk);
    }
    proof {
        assert(chunks.deep_view() =~= Seq::<Seq<u8>>::empty());
    }
    acc
}

/// Over a trace with no terminator — every event data — the input loop
/// forwards the concatenation of all the chunks: nothing is dropped at the
/// end either.
pub proof fn lemma_forwarded_input_all_data(events: Seq<ReadEvent>, chunks: Seq<Seq<u8>>)
    requires
        events.len() == chunks.len(),
        forall|i: int|
            0 <= i < events.len() ==> (#[trigger] events[i] matches ReadEvent::Data(c) && c@
                == chunks[i]),
    ensures
        forwarded_input(events) == chunks.flatten(),
    decreases events.len(),
{
    if events.len() == 0 {
    } else {
        lemma_forwarded_input_all_data(events.drop_first(), chunks.drop_first());
        assert(events[0] matches ReadEvent::Data(c) && c@ == chunks[0]);
        assert(chunks.first() == chunks[0]);
    }
}

} // verus!
