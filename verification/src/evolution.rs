//! The order of work within one time step.
//!
//! A step redistributes energy within every cell and projects each cell back
//! onto its constraints, then transports energy between cells, then, where
//! asked for, projects once more, and only then advances the clock. The work
//! itself is the caller's; `StepProtocol` says what comes next and keeps the
//! count of completed steps. A phase that fails ends the step on the spot:
//! later phases do not run and the step is not counted.

use vstd::prelude::*;

verus! {

/// One phase of a time step.
#[derive(Clone, Copy, Debug, PartialEq, Eq, Hash, Structural)]
pub enum StepPhase {
    /// Evolve every cell under the redistribution operator and project it
    /// onto the constraints.
    Redistribute,
    /// Exchange energy between neighbouring cells.
    Transport,
    /// Project every cell onto the constraints once more.
    Reproject,
    /// Advance the clock by the step.
    Advance,
}

/// The phase that follows `phase` once it has succeeded, or `None` when
/// `phase` was the last one of the step.
pub open spec fn phase_after(phase: StepPhase, reproject: bool) -> Option<StepPhase> {
    match phase {
        StepPhase::Redistribute => Some(StepPhase::Transport),
        StepPhase::Transport => if reproject {
            Some(StepPhase::Reproject)
        } else {
            Some(StepPhase::Advance)
        },
        StepPhase::Reproject => Some(StepPhase::Advance),
        StepPhase::Advance => None,
    }
}

/// The phases of one step in the order in which they run.
pub open spec fn phases_of_step(reproject: bool) -> Seq<StepPhase> {
    if reproject {
        seq![
            StepPhase::Redistribute,
            StepPhase::Transport,
            StepPhase::Reproject,
            StepPhase::Advance,
        ]
    } else {
        seq![StepPhase::Redistribute, StepPhase::Transport, StepPhase::Advance]
    }
}

/// `phase_after` walks through `phases_of_step`: the step starts with
/// redistribution, each phase is followed by the next of the list, and the
/// last one is followed by nothing. In particular transport never runs
/// before redistribution, and the clock advances last.
pub proof fn law_phase_order(reproject: bool, i: int)
    requires
        0 <= i < phases_of_step(reproject).len(),
    ensures
        phases_of_step(reproject)[0] == StepPhase::Redistribute,
        phases_of_step(reproject).last() == StepPhase::Advance,
        phase_after(phases_of_step(reproject)[i], reproject) == if i + 1 < phases_of_step(
            reproject,
        ).len() {
            Some(phases_of_step(reproject)[i + 1])
        } else {
            None
        },
{
}

/// Where a simulation stands between and within its time steps.
#[derive(Clone, Copy, Debug)]
pub struct StepProtocol {
    reproject: bool,
    pending: Option<StepPhase>,
    completed: usize,
}

impl StepProtocol {
    /// Whether cells are projected again after transport.
    pub closed spec fn reproject_spec(&self) -> bool {
        self.reproject
    }

    /// The phase whose outcome is awaited, or `None` between steps.
    pub closed spec fn pending_spec(&self) -> Option<StepPhase> {
        self.pending
    }

    /// Number of steps completed so far.
    pub closed spec fn completed_spec(&self) -> nat {
        self.completed as nat
    }

    /// A protocol at rest with no step completed.
    pub fn new(reproject: bool) -> (protocol: StepProtocol)
        ensures
            protocol.reproject_spec() == reproject,
            protocol.pending_spec() is None,
            protocol.completed_spec() == 0,
    {
        StepProtocol { reproject, pending: None, completed: 0 }
    }

    /// The phase whose outcome is awaited, or `None` between steps.
    pub fn pending(&self) -> (phase: Option<StepPhase>)
        ensures
            phase == self.pending_spec(),
    {
        self.pending
    }

    /// Number of steps completed so far.
    pub fn completed(&self) -> (steps: usize)
        ensures
            steps == self.completed_spec(),
    {
        self.completed
    }

    /// Says whether the steps that start from now on project again after
    /// transport. A step under way keeps going; what follows its transport
    /// phase is decided when that phase is reported.
    pub fn set_reproject(&mut self, reproject: bool)
        ensures
            final(self).reproject_spec() == reproject,
            final(self).pending_spec() == old(self).pending_spec(),
            final(self).completed_spec() == old(self).completed_spec(),
    {
        self.reproject = reproject;
    }

    /// Starts a step and says with which phase: always redistribution. A
    /// step that was under way is abandoned.
    pub fn begin(&mut self) -> (phase: StepPhase)
        ensures
            phase == StepPhase::Redistribute,
            final(self).pending_spec() == Some(phase),
            final(self).completed_spec() == old(self).completed_spec(),
            final(self).reproject_spec() == old(self).reproject_spec(),
    {
        self.pending = Some(StepPhase::Redistribute);
        StepPhase::Redistribute
    }

    /// Takes the outcome of the pending phase and says what to do next;
    /// `None` when the step is over.
    ///
    /// After a success the next phase of the step is pending; after the last
    /// phase the step is counted (the count stops at `usize::MAX`) and the
    /// protocol is at rest. After a failure the protocol is at rest and the
    /// count is as it was. Between steps there is nothing to report on and
    /// nothing changes.
    pub fn report(&mut self, succeeded: bool) -> (next: Option<StepPhase>)
        ensures
            final(self).reproject_spec() == old(self).reproject_spec(),
            final(self).pending_spec() == next,
            next == match old(self).pending_spec() {
                Some(phase) => if succeeded {
                    phase_after(phase, old(self).reproject_spec())
                } else {
                    None
                },
                None => None,
            },
            final(self).completed_spec() == if succeeded && old(self).pending_spec() == Some(
                StepPhase::Advance,
            ) && old(self).completed_spec() < usize::MAX {
                old(self).completed_spec() + 1
            } else {
                old(self).completed_spec()
            },
    {
        let next = match self.pending {
            Some(phase) => {
                if succeeded {
                    match phase {
                        StepPhase::Redistribute => Some(StepPhase::Transport),
                        StepPhase::Transport => {
                            if self.reproject {
                                Some(StepPhase::Reproject)
                            } else {
                                Some(StepPhase::Advance)
                            }
                        },
                        StepPhase::Reproject => Some(StepPhase::Advance),
                        StepPhase::Advance => {
                            if self.completed < usize::MAX {
                                self.completed = self.completed + 1;
                            }
                            None
                        },
                    }
                } else {
                    None
                }
            },
            None => None,
        };
        self.pending = next;
        next
    }
}

} // verus!
