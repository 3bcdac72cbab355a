//! Order of the phases of a tick.
//!
//! A tick runs its phases one after the other, each to its end before the
//! next begins. A failed task ends the run: no later phase is started and
//! nothing is emitted.

use vstd::prelude::*;

verus! {

/// One phase of a tick.
#[derive(Clone, Copy, Debug, PartialEq, Eq, Structural)]
pub enum Phase {
    /// Bucket the agents by cell.
    BuildGrid,
    /// Compute each agent's new heading from the buckets.
    ComputeForces,
    /// Advance each agent along its heading.
    Integrate,
    /// Apply the rule at the world's edge.
    ApplyBounds,
    /// Hand positions and headings to the renderer.
    Emit,
}

/// How the work of a phase ended.
#[derive(Clone, Copy, Debug, PartialEq, Eq, Structural)]
pub enum Outcome {
    /// Every task of the phase ran to its end.
    Completed,
    /// A task of the phase was cut short.
    TaskFailed,
}

/// A run that ended because a task failed during `phase`.
#[derive(Clone, Copy, Debug, PartialEq, Eq, Structural)]
pub struct SimulationFault {
    pub phase: Phase,
}

/// State of the orchestrator between two phases.
#[derive(Clone, Copy, Debug, PartialEq, Eq, Structural)]
pub enum TickState {
    /// `Running(p)`: phase `p` is the next to run.
    Running(Phase),
    /// `Faulted(p)`: a task failed during phase `p`; the run is over.
    Faulted(Phase),
}

/// Place of a phase within its tick, from zero.
pub open spec fn rank(phase: Phase) -> int {
    match phase {
        Phase::BuildGrid => 0,
        Phase::ComputeForces => 1,
        Phase::Integrate => 2,
        Phase::ApplyBounds => 3,
        Phase::Emit => 4,
    }
}

/// The phase that follows `phase`; after `Emit` the next tick begins.
pub open spec fn successor(phase: Phase) -> Phase {
    match phase {
        Phase::BuildGrid => Phase::ComputeForces,
        Phase::ComputeForces => Phase::Integrate,
        Phase::Integrate => Phase::ApplyBounds,
        Phase::ApplyBounds => Phase::Emit,
        Phase::Emit => Phase::BuildGrid,
    }
}

/// The state after the phase that was due ended with `outcome`.
pub open spec fn step(state: TickState, outcome: Outcome) -> TickState {
    match state {
        TickState::Running(phase) => match outcome {
            Outcome::Completed => TickState::Running(successor(phase)),
            Outcome::TaskFailed => TickState::Faulted(phase),
        },
        TickState::Faulted(phase) => TickState::Faulted(phase),
    }
}

/// The state after a sequence of outcomes, one per phase that was due.
pub open spec fn run(state: TickState, outcomes: Seq<Outcome>) -> TickState
    decreases outcomes.len(),
{
    if outcomes.len() == 0 {
        state
    } else {
        step(run(state, outcomes.drop_last()), outcomes.last())
    }
}

/// The phase `n` places after `phase`, around the cycle of the tick.
pub open spec fn phase_after(phase: Phase, n: nat) -> Phase
    decreases n,
{
    if n == 0 {
        phase
    } else {
        successor(phase_after(phase, (n - 1) as nat))
    }
}

impl Phase {
    /// The phase that follows this one.
    pub fn next(self) -> (following: Phase)
        ensures
            following == successor(self),
    {
        match self {
            Phase::BuildGrid => Phase::ComputeForces,
            Phase::ComputeForces => Phase::Integrate,
            Phase::Integrate => Phase::ApplyBounds,
            Phase::ApplyBounds => Phase::Emit,
            Phase::Emit => Phase::BuildGrid,
        }
    }
}

/// Sequences the phases of each tick.
#[derive(Clone, Copy, Debug)]
pub struct Orchestrator {
    state: TickState,
}

impl View for Orchestrator {
    type V = TickState;

    closed spec fn view(&self) -> TickState {
        self.state
    }
}

impl Orchestrator {
    /// An orchestrator about to build the grid of its first tick.
    pub fn new() -> (fresh: Orchestrator)
        ensures
            fresh@ == TickState::Running(Phase::BuildGrid),
    {
        Orchestrator { state: TickState::Running(Phase::BuildGrid) }
    }

    /// The current state.
    pub fn state(&self) -> (state: TickState)
        ensures
            state == self@,
    {
        self.state
    }

    /// The phase to run now, or the fault that ended the run.
    pub fn due(&self) -> (due: Result<Phase, SimulationFault>)
        ensures
            match due {
                Ok(phase) => self@ == TickState::Running(phase),
                Err(fault) => self@ == TickState::Faulted(fault.phase),
            },
    {
        match self.state {
            TickState::Running(phase) => Ok(phase),
            TickState::Faulted(phase) => Err(SimulationFault { phase }),
        }
    }

    /// Records how the phase that was due ended and says what to run next.
    /// After a completed phase that is its successor. After a failed task,
    /// now or earlier, it is nothing: the fault is returned, every time.
    pub fn advance(&mut self, outcome: Outcome) -> (next: Result<Phase, SimulationFault>)
        ensures
            final(self)@ == step(old(self)@, outcome),
            match next {
                Ok(phase) => final(self)@ == TickState::Running(phase),
                Err(fault) => final(self)@ == TickState::Faulted(fault.phase),
            },
    {
        match self.state {
            TickState::Running(phase) => match outcome {
                Outcome::Completed => {
                    let following = phase.next();
                    self.state = TickState::Running(following);
                    Ok(following)
                },
                Outcome::TaskFailed => {
                    self.state = TickState::Faulted(phase);
                    Err(SimulationFault { phase })
                },
            },
            TickState::Faulted(phase) => Err(SimulationFault { phase }),
        }
    }
}

/// Within a tick the phases follow one another in rank, and the last one
/// leads back to the first.
pub proof fn lemma_phases_in_order(phase: Phase)
    ensures
        rank(successor(phase)) == (rank(phase) + 1) % 5,
        0 <= rank(phase) < 5,
{
}

/// A fault is final: whatever is reported afterwards, the state stays.
pub proof fn lemma_fault_is_final(phase: Phase, outcomes: Seq<Outcome>)
    ensures
        run(TickState::Faulted(phase), outcomes) == TickState::Faulted(phase),
    decreases outcomes.len(),
{
    if outcomes.len() > 0 {
        lemma_fault_is_final(phase, outcomes.drop_last());
    }
}

/// A run is still going exactly when every phase so far completed, and then
/// the phase that is due lies as many places on as phases were run. After a
/// failure the run stands faulted at the phase of the first failure.
pub proof fn lemma_run_outcome(phase: Phase, outcomes: Seq<Outcome>)
    ensures
        match run(TickState::Running(phase), outcomes) {
            TickState::Running(due) => {
                &&& forall|k: int| 0 <= k < outcomes.len() ==> outcomes[k] == Outcome::Completed
                &&& due == phase_after(phase, outcomes.len())
            },
            TickState::Faulted(at) => exists|k: int|
                {
                    &&& 0 <= k < outcomes.len()
                    &&& #[trigger] outcomes[k] == Outcome::TaskFailed
                    &&& forall|j: int| 0 <= j < k ==> outcomes[j] == Outcome::Completed
                    &&& at == phase_after(phase, k as nat)
                },
        },
    decreases outcomes.len(),
{
    if outcomes.len() > 0 {
        let before = outcomes.drop_last();
        lemma_run_outcome(phase, before);
        match run(TickState::Running(phase), before) {
            TickState::Running(due) => {
                assert forall|k: int| 0 <= k < before.len() implies outcomes[k]
                    == Outcome::Completed by {
                    assert(before[k] == outcomes[k]);
                }
                if outcomes.last() == Outcome::TaskFailed {
                    let k = outcomes.len() - 1;
                    assert(outcomes[k] == Outcome::TaskFailed);
                }
            },
            TickState::Faulted(at) => {
                let k = choose|k: int|
                    {
                        &&& 0 <= k < before.len()
                        &&& #[trigger] before[k] == Outcome::TaskFailed
                        &&& forall|j: int| 0 <= j < k ==> before[j] == Outcome::Completed
                        &&& at == phase_after(phase, k as nat)
                    };
                assert(outcomes[k] == Outcome::TaskFailed);
                assert forall|j: int| 0 <= j < k implies outcomes[j] == Outcome::Completed by {
                    assert(before[j] == outcomes[j]);
                }
            },
        }
    }
}

/// Five completed phases make one tick: the same phase is due again.
pub proof fn lemma_tick_is_five_phases(phase: Phase)
    ensures
        phase_after(phase, 5) == phase,
        forall|n: nat| 0 < n < 5 ==> #[trigger] phase_after(phase, n) != phase,
{
    reveal_with_fuel(phase_after, 6);
}

} // verus!
