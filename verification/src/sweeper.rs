//! The sweeper of a shard: what the background worker does each time it wakes.
//!
//! The worker itself, with its thread, timer and shutdown signal, belongs to
//! the caller. It wakes, tells the sweeper why, and does what it is told:
//! run an eviction pass on the shard, or exit.

use vstd::prelude::*;

verus! {

/// The seconds a sweeper waits between two eviction passes.
pub const CLEANUP_INTERVAL_SECS: u64 = 60;

/// The state of a sweeper. `Stopped` is final.
#[derive(Debug, Clone, Copy, PartialEq, Eq, Structural)]
pub enum SweeperState {
    Running,
    Stopped,
}

/// Why the worker woke up.
#[derive(Debug, Clone, Copy, PartialEq, Eq, Structural)]
pub enum Wake {
    /// The interval has elapsed.
    Interval,
    /// The shutdown signal was raised.
    Shutdown,
}

/// What the worker is to do next.
#[derive(Debug, Clone, Copy, PartialEq, Eq, Structural)]
pub enum SweeperAction {
    /// Run one eviction pass on the shard, then wait for the next wake-up.
    Sweep,
    /// Leave the loop for good.
    Exit,
}

/// The state after a wake-up: a running sweeper stays running on an interval
/// and stops on shutdown; a stopped one stays stopped.
pub open spec fn next_state(state: SweeperState, wake: Wake) -> SweeperState {
    match (state, wake) {
        (SweeperState::Running, Wake::Interval) => SweeperState::Running,
        _ => SweeperState::Stopped,
    }
}

/// The action on a wake-up: a sweeper that is running and woken by the
/// interval sweeps; in every other case the worker exits.
pub open spec fn action_on(state: SweeperState, wake: Wake) -> SweeperAction {
    match (state, wake) {
        (SweeperState::Running, Wake::Interval) => SweeperAction::Sweep,
        _ => SweeperAction::Exit,
    }
}

/// The state after the wake-ups of `wakes`, in order.
pub open spec fn state_after(state: SweeperState, wakes: Seq<Wake>) -> SweeperState
    decreases wakes.len(),
{
    if wakes.len() == 0 {
        state
    } else {
        next_state(state_after(state, wakes.drop_last()), wakes.last())
    }
}

/// The sweeper of one shard.
#[derive(Debug)]
pub struct Sweeper {
    state: SweeperState,
}

impl View for Sweeper {
    type V = SweeperState;

    closed spec fn view(&self) -> SweeperState {
        self.state
    }
}

impl Sweeper {
    /// A sweeper that is running.
    pub fn new() -> (sweeper: Sweeper)
        ensures
            sweeper@ == SweeperState::Running,
    {
        Sweeper { state: SweeperState::Running }
    }

    /// The sweeper's state.
    pub fn state(&self) -> (state: SweeperState)
        ensures
            state == self@,
    {
        self.state
    }

    /// Takes a wake-up: moves to the next state and says what to do.
    pub fn on_wake(&mut self, wake: Wake) -> (action: SweeperAction)
        ensures
            final(self)@ == next_state(old(self)@, wake),
            action == action_on(old(self)@, wake),
    {
        match (self.state, wake) {
            (SweeperState::Running, Wake::Interval) => SweeperAction::Sweep,
            _ => {
                self.state = SweeperState::Stopped;
                SweeperAction::Exit
            },
        }
    }
}

/// A sweeper sweeps exactly while it keeps running: the action is `Sweep` if
/// the state after the wake-up is `Running`, and `Exit` if it is `Stopped`.
pub proof fn law_sweeps_while_running(state: SweeperState, wake: Wake)
    ensures
        action_on(state, wake) == SweeperAction::Sweep <==> next_state(state, wake)
            == SweeperState::Running,
        action_on(state, wake) == SweeperAction::Exit <==> next_state(state, wake)
            == SweeperState::Stopped,
{
}

/// `Stopped` is final: whatever wakes a stopped sweeper, it stays stopped
/// and never sweeps again.
pub proof fn law_stopped_is_final(wakes: Seq<Wake>, wake: Wake)
    ensures
        state_after(SweeperState::Stopped, wakes) == SweeperState::Stopped,
        action_on(state_after(SweeperState::Stopped, wakes), wake) == SweeperAction::Exit,
    decreases wakes.len(),
{
    if wakes.len() > 0 {
        law_stopped_is_final(wakes.drop_last(), wake);
    }
}

/// A sweeper is running after a series of wake-ups exactly if it was running
/// before and none of them was a shutdown.
pub proof fn law_runs_until_shutdown(state: SweeperState, wakes: Seq<Wake>)
    ensures
        state_after(state, wakes) == SweeperState::Running <==> state == SweeperState::Running
            && forall|i: int| 0 <= i < wakes.len() ==> wakes[i] == Wake::Interval,
    decreases wakes.len(),
{
    if wakes.len() > 0 {
        let earlier = wakes.drop_last();
        law_runs_until_shutdown(state, earlier);
        if state_after(state, wakes) == SweeperState::Running {
            assert forall|i: int| 0 <= i < wakes.len() implies wakes[i] == Wake::Interval by {
                if i < earlier.len() {
                    assert(earlier[i] == wakes[i]);
                }
            }
        }
        if state == SweeperState::Running && forall|i: int|
            0 <= i < wakes.len() ==> wakes[i] == Wake::Interval {
            assert forall|i: int| 0 <= i < earlier.len() implies earlier[i] == Wake::Interval by {
                assert(earlier[i] == wakes[i]);
            }
            assert(wakes[wakes.len() - 1] == Wake::Interval);
        }
    }
}

} // verus!
