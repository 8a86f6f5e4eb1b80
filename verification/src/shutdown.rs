//! The daemon's shutdown state machine: running until a first signal, then
//! draining until the router exits, the drain deadline elapses, or a second
//! signal arrives — the latter two force an immediate exit.
//!
//! The surrounding binary owns the actual signal handlers, the bounded-1
//! shutdown channel and the deadline timer; it feeds each occurrence to this
//! machine and performs the action the machine returns. A second signal that
//! finds the shutdown channel already full is the same occurrence as a
//! signal while draining: both force the exit.

use vstd::prelude::*;

verus! {

/// How many seconds the daemon waits for the router to drain after the
/// first signal before it forces the exit.
pub const DRAIN_DEADLINE_SECS: u64 = 5;

/// Where the daemon stands in its lifecycle.
#[derive(Clone, Copy, Debug, PartialEq, Eq, Structural)]
pub enum DaemonPhase {
    /// Serving; no signal seen yet.
    Running,
    /// A signal was seen; the router is draining under a deadline.
    Draining,
    /// The daemon has exited (an exit action was returned).
    Stopped,
}

/// What can happen while the daemon runs or drains.
#[derive(Clone, Copy, Debug, PartialEq, Eq, Structural)]
pub enum DaemonEvent {
    /// SIGTERM or SIGINT (or Ctrl-C where that is the only source).
    Signal,
    /// The drain deadline elapsed.
    TimerElapsed,
    /// The router task finished on its own.
    RouterExited,
}

/// What the binary must do after an event.
#[derive(Clone, Copy, Debug, PartialEq, Eq, Structural)]
pub enum DaemonAction {
    /// Send the one unit on the shutdown channel and start the drain
    /// deadline.
    BeginDrain,
    /// Exit immediately, without waiting for the router.
    ForceExit,
    /// Exit normally; the router is down.
    GracefulExit,
    /// Nothing to do.
    Continue,
}

/// Whether an action ends the daemon.
pub open spec fn is_exit(a: DaemonAction) -> bool {
    a == DaemonAction::ForceExit || a == DaemonAction::GracefulExit
}

/// The transition table: a first signal begins the drain; while draining,
/// a second signal or the deadline forces the exit and the router's own
/// exit is the graceful one; a router that stops unprompted also ends the
/// daemon.
pub open spec fn daemon_step(phase: DaemonPhase, ev: DaemonEvent) -> (DaemonPhase, DaemonAction) {
    match (phase, ev) {
        (DaemonPhase::Running, DaemonEvent::Signal) => (
            DaemonPhase::Draining,
            DaemonAction::BeginDrain,
        ),
        (DaemonPhase::Running, DaemonEvent::TimerElapsed) => (
            DaemonPhase::Running,
            DaemonAction::Continue,
        ),
        (DaemonPhase::Running, DaemonEvent::RouterExited) => (
            DaemonPhase::Stopped,
            DaemonAction::GracefulExit,
        ),
        (DaemonPhase::Draining, DaemonEvent::Signal) => (
            DaemonPhase::Stopped,
            DaemonAction::ForceExit,
        ),
        (DaemonPhase::Draining, DaemonEvent::TimerElapsed) => (
            DaemonPhase::Stopped,
            DaemonAction::ForceExit,
        ),
        (DaemonPhase::Draining, DaemonEvent::RouterExited) => (
            DaemonPhase::Stopped,
            DaemonAction::GracefulExit,
        ),
        (DaemonPhase::Stopped, _) => (DaemonPhase::Stopped, DaemonAction::Continue),
    }
}

/// The phase after a whole event trace.
pub open spec fn daemon_run(phase: DaemonPhase, events: Seq<DaemonEvent>) -> DaemonPhase
    decreases events.len(),
{
    if events.len() == 0 {
        phase
    } else {
        daemon_run(daemon_step(phase, events[0]).0, events.drop_first())
    }
}

/// The actions a whole event trace produces, one per event, in order.
pub open spec fn daemon_actions(phase: DaemonPhase, events: Seq<DaemonEvent>) -> Seq<DaemonAction>
    decreases events.len(),
{
    if events.len() == 0 {
        Seq::empty()
    } else {
        seq![daemon_step(phase, events[0]).1] + daemon_actions(
            daemon_step(phase, events[0]).0,
            events.drop_first(),
        )
    }
}

/// The daemon's lifecycle state, stepped by the binary on every signal,
/// deadline and router exit.
pub struct ShutdownFsm {
    phase: DaemonPhase,
}

impl ShutdownFsm {
    /// The phase the machine is in.
    pub closed spec fn phase(&self) -> DaemonPhase {
        self.phase
    }

    /// A daemon that has just started serving.
    pub fn new() -> (r: ShutdownFsm)
        ensures
            r.phase() == DaemonPhase::Running,
    {
        ShutdownFsm { phase: DaemonPhase::Running }
    }

    /// Feeds one occurrence to the machine and returns what to do.
    pub fn on_event(&mut self, ev: DaemonEvent) -> (a: DaemonAction)
        ensures
            (final(self).phase(), a) == daemon_step(old(self).phase(), ev),
    {
        let (next, action) = match (self.phase, ev) {
            (DaemonPhase::Running, DaemonEvent::Signal) => (
                DaemonPhase::Draining,
                DaemonAction::BeginDrain,
            ),
            (DaemonPhase::Running, DaemonEvent::TimerElapsed) => (
                DaemonPhase::Running,
                DaemonAction::Continue,
            ),
            (DaemonPhase::Running, DaemonEvent::RouterExited) => (
                DaemonPhase::Stopped,
                DaemonAction::GracefulExit,
            ),
            (DaemonPhase::Draining, DaemonEvent::Signal) => (
                DaemonPhase::Stopped,
                DaemonAction::ForceExit,
            ),
            (DaemonPhase::Draining, DaemonEvent::TimerElapsed) => (
                DaemonPhase::Stopped,
                DaemonAction::ForceExit,
            ),
            (DaemonPhase::Draining, DaemonEvent::RouterExited) => (
                DaemonPhase::Stopped,
                DaemonAction::GracefulExit,
            ),
            (DaemonPhase::Stopped, _) => (DaemonPhase::Stopped, DaemonAction::Continue),
        };
        self.phase = next;
        action
    }
}

/// The action at a position in a trace is the step taken from the phase the
/// prefix before it reached.
proof fn lemma_daemon_actions_index(phase: DaemonPhase, events: Seq<DaemonEvent>, k: int)
    requires
        0 <= k < events.len(),
    ensures
        daemon_actions(phase, events).len() == events.len(),
        daemon_actions(phase, events)[k] == daemon_step(
            daemon_run(phase, events.take(k)),
            events[k],
        ).1,
    decreases events.len(),
{
    lemma_daemon_actions_len(phase, events);
    assert(events.take(0) =~= Seq::<DaemonEvent>::empty());
    if k == 0 {
    } else {
        let p1 = daemon_step(phase, events[0]).0;
        lemma_daemon_actions_index(p1, events.drop_first(), k - 1);
        assert(events.drop_first().take(k - 1) =~= events.take(k).drop_first());
        assert(daemon_run(phase, events.take(k)) == daemon_run(p1, events.take(k).drop_first()));
        assert(events.drop_first()[k - 1] == events[k]);
    }
}

/// A daemon that has left `Running` never returns to it.
proof fn lemma_daemon_never_restarts(phase: DaemonPhase, events: Seq<DaemonEvent>)
    requires
        phase != DaemonPhase::Running,
    ensures
        daemon_run(phase, events) != DaemonPhase::Running,
    decreases events.len(),
{
    if events.len() > 0 {
        lemma_daemon_never_restarts(daemon_step(phase, events[0]).0, events.drop_first());
    }
}

/// A daemon that reached `Stopped` emitted an exit action on the way.
proof fn lemma_stopped_has_exit(phase: DaemonPhase, events: Seq<DaemonEvent>)
    requires
        phase != DaemonPhase::Stopped,
        daemon_run(phase, events) == DaemonPhase::Stopped,
    ensures
        exists|k: int|
            0 <= k < events.len() && is_exit(#[trigger] daemon_actions(phase, events)[k]),
    decreases events.len(),
{
    if events.len() == 0 {
        assert(daemon_run(phase, events) == phase);
    } else {
        let (p1, a0) = daemon_step(phase, events[0]);
        if p1 == DaemonPhase::Stopped {
            assert(is_exit(a0));
            assert(daemon_actions(phase, events)[0] == a0);
        } else {
            lemma_stopped_has_exit(p1, events.drop_first());
            lemma_daemon_actions_len(phase, events);
            lemma_daemon_actions_len(p1, events.drop_first());
            let k = choose|k: int|
                0 <= k < events.drop_first().len() && is_exit(
                    #[trigger] daemon_actions(p1, events.drop_first())[k],
                );
            assert(daemon_actions(phase, events) == seq![a0] + daemon_actions(
                p1,
                events.drop_first(),
            ));
            assert(daemon_actions(phase, events)[k + 1] == daemon_actions(
                p1,
                events.drop_first(),
            )[k]);
            assert(is_exit(daemon_actions(phase, events)[k + 1]));
        }
    }
}

/// The shutdown contract: when a signal reaches the still-running daemon,
/// the daemon has exited by the next deadline, signal or router exit — some
/// exit action stands in the trace between the signal and that event.
pub proof fn lemma_shutdown_terminates(events: Seq<DaemonEvent>, i: int, j: int)
    requires
        0 <= i < j < events.len(),
        events[i] == DaemonEvent::Signal,
        daemon_run(DaemonPhase::Running, events.take(i)) == DaemonPhase::Running,
    ensures
        exists|k: int|
            i <= k <= j && is_exit(#[trigger] daemon_actions(DaemonPhase::Running, events)[k]),
{
    let p0 = DaemonPhase::Running;
    assert(events.take(i + 1).drop_last() =~= events.take(i));
    lemma_daemon_run_snoc(p0, events.take(i + 1));
    assert(events.take(i + 1).last() == events[i]);
    let phase_after_i = daemon_run(p0, events.take(i + 1));
    assert(phase_after_i == DaemonPhase::Draining);
    let seg = events.take(j).skip(i + 1);
    assert(events.take(j) =~= events.take(i + 1) + seg);
    lemma_daemon_run_concat(p0, events.take(i + 1), seg);
    lemma_daemon_never_restarts(phase_after_i, seg);
    let phase_at_j = daemon_run(p0, events.take(j));
    lemma_daemon_actions_len(p0, events);
    if phase_at_j == DaemonPhase::Draining {
        lemma_daemon_actions_index(p0, events, j);
        assert(is_exit(daemon_actions(p0, events)[j]));
    } else {
        assert(phase_at_j == DaemonPhase::Stopped);
        lemma_stopped_has_exit(phase_after_i, seg);
        let k = choose|k: int|
            0 <= k < seg.len() && is_exit(#[trigger] daemon_actions(phase_after_i, seg)[k]);
        lemma_daemon_actions_index(phase_after_i, seg, k);
        lemma_daemon_actions_index(p0, events, i + 1 + k);
        assert(events.take(i + 1 + k) =~= events.take(i + 1) + seg.take(k));
        lemma_daemon_run_concat(p0, events.take(i + 1), seg.take(k));
        assert(events[i + 1 + k] == seg[k]);
        assert(is_exit(daemon_actions(p0, events)[i + 1 + k]));
        assert(i <= i + 1 + k <= j);
    }
}

/// Running a trace plus one event is one step after running the trace.
proof fn lemma_daemon_run_snoc(phase: DaemonPhase, events: Seq<DaemonEvent>)
    requires
        events.len() > 0,
    ensures
        daemon_run(phase, events) == daemon_step(
            daemon_run(phase, events.drop_last()),
            events.last(),
        ).0,
    decreases events.len(),
{
    if events.len() == 1 {
        assert(events.drop_last() =~= Seq::<DaemonEvent>::empty());
        assert(events.drop_first() =~= Seq::<DaemonEvent>::empty());
        assert(events.last() == events[0]);
        assert(daemon_run(daemon_step(phase, events[0]).0, events.drop_first()) == daemon_step(
            phase,
            events[0],
        ).0);
    } else {
        let p1 = daemon_step(phase, events[0]).0;
        lemma_daemon_run_snoc(p1, events.drop_first());
        assert(daemon_run(phase, events) == daemon_run(p1, events.drop_first()));
        assert(daemon_run(p1, events.drop_first()) == daemon_step(
            daemon_run(p1, events.drop_first().drop_last()),
            events.drop_first().last(),
        ).0);
        assert(events.drop_first().drop_last() =~= events.drop_last().drop_first());
        assert(events.drop_first().last() == events.last());
        assert(events.drop_last()[0] == events[0]);
        assert(events.drop_last().len() > 0);
        assert(daemon_run(phase, events.drop_last()) == daemon_run(
            p1,
            events.drop_last().drop_first(),
        ));
    }
}

/// Running a concatenated trace runs the pieces in order.
proof fn lemma_daemon_run_concat(phase: DaemonPhase, a: Seq<DaemonEvent>, b: Seq<DaemonEvent>)
    ensures
        daemon_run(phase, a + b) == daemon_run(daemon_run(phase, a), b),
    decreases a.len(),
{
    if a.len() == 0 {
        assert(a + b =~= b);
    } else {
        let p1 = daemon_step(phase, a[0]).0;
        lemma_daemon_run_concat(p1, a.drop_first(), b);
        assert((a + b).drop_first() =~= a.drop_first() + b);
        assert((a + b)[0] == a[0]);
    }
}

/// A trace produces one action per event.
proof fn lemma_daemon_actions_len(phase: DaemonPhase, events: Seq<DaemonEvent>)
    ensures
        daemon_actions(phase, events).len() == events.len(),
    decreases events.len(),
{
    if events.len() > 0 {
        lemma_daemon_actions_len(daemon_step(phase, events[0]).0, events.drop_first());
    }
}

} // verus!
