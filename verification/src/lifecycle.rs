//! The serving lifecycle: a state machine from accept/shutdown/completion
//! events to actions. The surrounding event loop performs the actions —
//! spawning a task for an accepted connection, dropping a refused one,
//! returning when the machine finishes — while the decisions live here.
use vstd::prelude::*;

verus! {

/// Where the lifecycle stands: accepting new connections, draining the ones
/// in flight after a shutdown signal, or stopped with nothing in flight.
#[derive(Clone, Copy, PartialEq, Eq, Structural, Debug)]
pub enum Phase {
    Serving,
    Draining,
    Stopped,
}

/// What the event loop observed: a new connection arrived, the shutdown
/// signal fired, or one in-flight connection finished.
#[derive(Clone, Copy, PartialEq, Eq, Structural, Debug)]
pub enum Event {
    Accepted,
    ShutdownSignal,
    ConnectionDone,
}

/// What the event loop must do next: serve the new connection in its own
/// task, refuse it, just carry on, or return because everything has drained.
#[derive(Clone, Copy, PartialEq, Eq, Structural, Debug)]
pub enum Action {
    Serve,
    Refuse,
    Carry,
    Finish,
}

/// How far along the lifecycle a phase is; phases only ever advance.
pub open spec fn phase_rank(p: Phase) -> int {
    match p {
        Phase::Serving => 0,
        Phase::Draining => 1,
        Phase::Stopped => 2,
    }
}

/// One transition of the lifecycle: from a phase and an in-flight count,
/// under an event, to the next phase, the next count and the action owed.
///
/// While serving, an accepted connection is served and counted (unless the
/// counter would overflow); the shutdown signal moves to draining, or
/// straight to stopped when nothing is in flight. While draining, new
/// connections are refused and completions are counted down; the last
/// completion finishes the lifecycle. A stopped lifecycle refuses new
/// connections and ignores everything else.
pub open spec fn spec_step(phase: Phase, inflight: u64, ev: Event) -> (Phase, u64, Action) {
    match (phase, ev) {
        (Phase::Serving, Event::Accepted) => if inflight < u64::MAX {
            (Phase::Serving, (inflight + 1) as u64, Action::Serve)
        } else {
            (Phase::Serving, inflight, Action::Refuse)
        },
        (Phase::Serving, Event::ShutdownSignal) => if inflight == 0 {
            (Phase::Stopped, 0u64, Action::Finish)
        } else {
            (Phase::Draining, inflight, Action::Carry)
        },
        (Phase::Serving, Event::ConnectionDone) => if inflight > 0 {
            (Phase::Serving, (inflight - 1) as u64, Action::Carry)
        } else {
            (Phase::Serving, 0u64, Action::Carry)
        },
        (Phase::Draining, Event::Accepted) => (Phase::Draining, inflight, Action::Refuse),
        (Phase::Draining, Event::ShutdownSignal) => (Phase::Draining, inflight, Action::Carry),
        (Phase::Draining, Event::ConnectionDone) => if inflight <= 1 {
            (Phase::Stopped, 0u64, Action::Finish)
        } else {
            (Phase::Draining, (inflight - 1) as u64, Action::Carry)
        },
        (Phase::Stopped, Event::Accepted) => (Phase::Stopped, 0u64, Action::Refuse),
        (Phase::Stopped, _) => (Phase::Stopped, 0u64, Action::Carry),
    }
}

/// The lifecycle state the event loop threads through its iterations.
pub struct Lifecycle {
    phase: Phase,
    inflight: u64,
}

impl Lifecycle {
    /// The current phase.
    pub closed spec fn spec_phase(&self) -> Phase {
        self.phase
    }

    /// How many accepted connections have not finished yet.
    pub closed spec fn spec_inflight(&self) -> u64 {
        self.inflight
    }

    /// A stopped lifecycle has nothing in flight.
    #[verifier::type_invariant]
    spec fn wf(&self) -> bool {
        self.phase == Phase::Stopped ==> self.inflight == 0
    }

    /// A lifecycle that has just started serving.
    pub fn new() -> (r: Lifecycle)
        ensures
            r.spec_phase() == Phase::Serving,
            r.spec_inflight() == 0,
    {
        Lifecycle { phase: Phase::Serving, inflight: 0 }
    }

    /// The current phase.
    pub fn phase(&self) -> (p: Phase)
        ensures
            p == self.spec_phase(),
    {
        self.phase
    }

    /// How many accepted connections have not finished yet.
    pub fn inflight(&self) -> (n: u64)
        ensures
            n == self.spec_inflight(),
    {
        self.inflight
    }

    /// Feed one event to the lifecycle and learn what to do.
    pub fn step(&mut self, ev: Event) -> (a: Action)
        ensures
            (final(self).spec_phase(), final(self).spec_inflight(), a) == spec_step(
                old(self).spec_phase(),
                old(self).spec_inflight(),
                ev,
            ),
    {
        proof {
            use_type_invariant(&*self);
        }
        let Lifecycle { phase, inflight } = *self;
        let (p2, n2, a) = match (phase, ev) {
            (Phase::Serving, Event::Accepted) => {
                if inflight < u64::MAX {
                    (Phase::Serving, inflight + 1, Action::Serve)
                } else {
                    (Phase::Serving, inflight, Action::Refuse)
                }
            },
            (Phase::Serving, Event::ShutdownSignal) => {
                if inflight == 0 {
                    (Phase::Stopped, 0u64, Action::Finish)
                } else {
                    (Phase::Draining, inflight, Action::Carry)
                }
            },
            (Phase::Serving, Event::ConnectionDone) => {
                if inflight > 0 {
                    (Phase::Serving, inflight - 1, Action::Carry)
                } else {
                    (Phase::Serving, 0u64, Action::Carry)
                }
            },
            (Phase::Draining, Event::Accepted) => (Phase::Draining, inflight, Action::Refuse),
            (Phase::Draining, Event::ShutdownSignal) => (Phase::Draining, inflight, Action::Carry),
            (Phase::Draining, Event::ConnectionDone) => {
                if inflight <= 1 {
                    (Phase::Stopped, 0u64, Action::Finish)
                } else {
                    (Phase::Draining, inflight - 1, Action::Carry)
                }
            },
            (Phase::Stopped, Event::Accepted) => (Phase::Stopped, 0u64, Action::Refuse),
            (Phase::Stopped, _) => (Phase::Stopped, 0u64, Action::Carry),
        };
        *self = Lifecycle { phase: p2, inflight: n2 };
        a
    }
}

/// After the shutdown signal no new connection is ever served: once the
/// lifecycle has left the serving phase, a step never answers `Serve` and
/// never raises the in-flight count.
pub proof fn lemma_no_serve_after_shutdown(phase: Phase, inflight: u64, ev: Event)
    requires
        phase != Phase::Serving,
    ensures
        spec_step(phase, inflight, ev).2 != Action::Serve,
        spec_step(phase, inflight, ev).1 <= inflight,
{
}

/// The lifecycle only moves forward: serving, then draining, then stopped.
pub proof fn lemma_phase_monotone(phase: Phase, inflight: u64, ev: Event)
    ensures
        phase_rank(spec_step(phase, inflight, ev).0) >= phase_rank(phase),
{
}

/// The lifecycle finishes only once every in-flight connection has
/// completed: `Finish` comes with nothing in flight, and a connection in
/// flight keeps the machine running.
pub proof fn lemma_finish_only_when_drained(phase: Phase, inflight: u64, ev: Event)
    ensures
        spec_step(phase, inflight, ev).2 == Action::Finish ==> spec_step(phase, inflight, ev).1
            == 0,
        spec_step(phase, inflight, ev).2 == Action::Finish ==> spec_step(phase, inflight, ev).0
            == Phase::Stopped,
        phase == Phase::Draining && inflight > 0 && ev != Event::ConnectionDone ==> spec_step(
            phase,
            inflight,
            ev,
        ).0 == Phase::Draining && spec_step(phase, inflight, ev).1 == inflight,
{
}

/// The lifecycle after a whole sequence of events.
pub open spec fn run_steps(phase: Phase, inflight: u64, events: Seq<Event>) -> (Phase, u64)
    decreases events.len(),
{
    if events.len() == 0 {
        (phase, inflight)
    } else {
        let next = spec_step(phase, inflight, events[0]);
        run_steps(next.0, next.1, events.drop_first())
    }
}

/// Once the shutdown signal has been seen, no step of any later event
/// sequence serves a new connection.
pub proof fn lemma_drained_forever(phase: Phase, inflight: u64, events: Seq<Event>, i: int)
    requires
        phase != Phase::Serving,
        0 <= i < events.len(),
    ensures
        ({
            let st = run_steps(phase, inflight, events.take(i));
            spec_step(st.0, st.1, events[i]).2 != Action::Serve
        }),
    decreases i,
{
    if i == 0 {
        assert(events.take(0) =~= Seq::<Event>::empty());
    } else {
        let next = spec_step(phase, inflight, events[0]);
        lemma_phase_monotone(phase, inflight, events[0]);
        lemma_drained_forever(next.0, next.1, events.drop_first(), i - 1);
        assert(events.drop_first().take(i - 1) =~= events.take(i).drop_first());
        assert(events.drop_first()[i - 1] == events[i]);
    }
}

} // verus!
