//! Poll loop state machine. One cycle runs `Idle -> Polling -> (Reacting ->)
//! Sleeping -> Idle`; an external cancellation signal, observed before every
//! step, sends the machine to the terminal `Stopped` state. The caller owns
//! the loop: it performs the fetch, the reaction and the sleep, and asks the
//! scheduler for each next state.
use vstd::prelude::*;

verus! {

/// The state of the poll loop.
#[derive(Clone, Copy, Debug, PartialEq, Eq, Structural)]
pub enum LoopState {
    /// Between cycles.
    Idle,
    /// Fetching and parsing, with retries.
    Polling,
    /// Dispatching reactions for detected transitions.
    Reacting,
    /// Waiting out the randomized inter-cycle delay.
    Sleeping,
    /// Terminal: the loop has shut down.
    Stopped,
}

/// What just finished, driving the machine to its next state.
#[derive(Clone, Copy, Debug, PartialEq, Eq, Structural)]
pub enum CycleEvent {
    /// A new cycle begins.
    Begin,
    /// Polling finished: whether the cycle ended in a parsed, successful
    /// response, and how many transitions the comparator reported.
    Polled { success: bool, transitions: usize },
    /// Reaction dispatch finished (whether or not the reaction failed).
    Reacted,
    /// The inter-cycle sleep elapsed.
    Slept,
}

/// The transition relation of the poll loop. Cancellation, observed at every
/// step, wins over everything and is terminal; an event that does not belong
/// to the current state leaves the state unchanged.
pub open spec fn spec_next_state(s: LoopState, cancelled: bool, e: CycleEvent) -> LoopState {
    if cancelled {
        LoopState::Stopped
    } else {
        match (s, e) {
            (LoopState::Idle, CycleEvent::Begin) => LoopState::Polling,
            (LoopState::Polling, CycleEvent::Polled { success, transitions }) => if success
                && transitions > 0 {
                LoopState::Reacting
            } else {
                LoopState::Sleeping
            },
            (LoopState::Reacting, CycleEvent::Reacted) => LoopState::Sleeping,
            (LoopState::Sleeping, CycleEvent::Slept) => LoopState::Idle,
            (LoopState::Stopped, _) => LoopState::Stopped,
            _ => s,
        }
    }
}

/// The top-level driver's state: the loop state and the cycle counter.
pub struct Scheduler {
    pub state: LoopState,
    pub cycle: u64,
}

impl Scheduler {
    /// A fresh scheduler: idle, before the first cycle, with no baseline.
    pub fn new() -> (r: Scheduler)
        ensures
            r.state == LoopState::Idle,
            r.cycle == 0,
    {
        Scheduler { state: LoopState::Idle, cycle: 0 }
    }

    /// Advance by one observed event. The cycle counter increments exactly
    /// when a new cycle begins.
    pub fn step(&mut self, cancelled: bool, event: CycleEvent)
        requires
            old(self).cycle < u64::MAX,
        ensures
            final(self).state == spec_next_state(old(self).state, cancelled, event),
            final(self).cycle == if !cancelled && old(self).state == LoopState::Idle && event
                == CycleEvent::Begin {
                old(self).cycle + 1
            } else {
                old(self).cycle as int
            },
    {
        if cancelled {
            self.state = LoopState::Stopped;
            return ;
        }
        match (self.state, event) {
            (LoopState::Idle, CycleEvent::Begin) => {
                self.cycle = self.cycle + 1;
                self.state = LoopState::Polling;
            },
            (LoopState::Polling, CycleEvent::Polled { success, transitions }) => {
                self.state = if success && transitions > 0 {
                    LoopState::Reacting
                } else {
                    LoopState::Sleeping
                };
            },
            (LoopState::Reacting, CycleEvent::Reacted) => {
                self.state = LoopState::Sleeping;
            },
            (LoopState::Sleeping, CycleEvent::Slept) => {
                self.state = LoopState::Idle;
            },
            (LoopState::Stopped, _) => {},
            _ => {},
        }
    }
}

/// Cancellation latency: once the flag is set, the very next step from any
/// state — including a step that cuts an in-flight sleep short — reaches
/// `Stopped`, so shutdown is bounded by the current step, not by a full
/// cycle plus sleep.
pub proof fn lemma_cancellation_stops(s: LoopState, e: CycleEvent)
    ensures
        spec_next_state(s, true, e) == LoopState::Stopped,
{
}

/// `Stopped` is terminal: no event leaves it.
pub proof fn lemma_stopped_terminal(cancelled: bool, e: CycleEvent)
    ensures
        spec_next_state(LoopState::Stopped, cancelled, e) == LoopState::Stopped,
{
}

/// A cycle that did not end in a successful response — a server-reported
/// failure, a malformed payload, or exhausted retries — degrades to the
/// inter-cycle sleep: the loop goes on, it never terminates on such a cycle.
pub proof fn lemma_failed_cycle_continues(transitions: usize)
    ensures
        spec_next_state(
            LoopState::Polling,
            false,
            CycleEvent::Polled { success: false, transitions },
        ) == LoopState::Sleeping,
{
}

/// Relies on `rand::Rng::gen_range` (crate `rand`): a draw from the uniform
/// distribution on `low..high`; it panics exactly when the range is empty.
#[verifier::external_body]
fn random_in_range(low: u64, high: u64) -> (r: u64)
    requires
        low < high,
    ensures
        low <= r < high,
{
    rand::Rng::gen_range(&mut rand::thread_rng(), low..high)
}

/// The randomized inter-cycle delay: a fresh uniform draw from the
/// configured `[min_ms, max_ms)` range, so that cycles do not poll the
/// remote server in lockstep.
pub fn pick_sleep_ms(min_ms: u64, max_ms: u64) -> (r: u64)
    requires
        min_ms < max_ms,
    ensures
        min_ms <= r < max_ms,
{
    random_in_range(min_ms, max_ms)
}

} // verus!
