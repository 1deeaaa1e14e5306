//! The proof assembler: every collected handle is revealed, sent handles
//! first, and only then is the substrings proof built.
//!
//! The assembler reveals nothing itself. It says which handle is to be
//! revealed next; whoever holds the notarized session reveals it and tells
//! the assembler how that went. A handle that the session's builder does not
//! know ends the assembly for good: no proof is built from the rest.

use crate::commitment::{CommitmentHandle, Direction};
use vstd::prelude::*;

verus! {

/// Why the assembler gave up.
#[derive(Clone, Copy, Debug, PartialEq, Eq, Structural)]
pub enum AssemblyError {
    /// The builder does not know the handle at this place of the reveal
    /// order: it comes from another session.
    UnknownHandle { direction: Direction, position: usize },
    /// The builder could not build the proof from what was revealed.
    BuildFailed,
    /// An outcome was reported that nothing asked for.
    Unrequested,
}

/// How one step of the assembly went.
#[derive(Clone, Copy, Debug, PartialEq, Eq, Structural)]
pub enum AssemblyOutcome {
    /// The handle was revealed.
    Revealed,
    /// The builder does not know the handle.
    UnknownHandle,
    /// The proof was built.
    Built,
    /// The builder failed to build the proof.
    BuildFailed,
}

/// What the assembler waits for.
#[derive(Clone, Copy, Debug, PartialEq, Eq)]
pub enum AssemblerAction<H> {
    /// Reveal this handle and report the outcome.
    Reveal(CommitmentHandle<H>),
    /// Every handle is revealed: build the proof and report the outcome.
    Build,
    /// The proof is built.
    Done,
    /// The assembly has failed; there is no proof.
    Abort(AssemblyError),
}

/// What an assembler holds: the handles in reveal order, how many of them
/// are revealed, whether the proof is built, and the reason it gave up, if it
/// did.
#[verifier::ext_equal]
pub struct AssemblerModel<H> {
    pub handles: Seq<CommitmentHandle<H>>,
    pub revealed: nat,
    pub built: bool,
    pub failure: Option<AssemblyError>,
}

impl<H> AssemblerModel<H> {
    /// No more handles are revealed than there are, and a proof is built
    /// only when all of them are revealed and nothing failed.
    pub open spec fn wf(self) -> bool {
        &&& self.revealed <= self.handles.len()
        &&& self.built ==> self.revealed == self.handles.len() && self.failure is None
    }

    /// What the assembler waits for.
    pub open spec fn pending(self) -> AssemblerAction<H> {
        match self.failure {
            Some(error) => AssemblerAction::Abort(error),
            None => if self.revealed < self.handles.len() {
                AssemblerAction::Reveal(self.handles[self.revealed as int])
            } else if !self.built {
                AssemblerAction::Build
            } else {
                AssemblerAction::Done
            },
        }
    }

    /// The assembler after an outcome was reported. An assembler that has
    /// failed, or has built the proof, stays as it is.
    pub open spec fn record(self, outcome: AssemblyOutcome) -> Self {
        match self.pending() {
            AssemblerAction::Reveal(handle) => match outcome {
                AssemblyOutcome::Revealed => AssemblerModel {
                    revealed: self.revealed + 1,
                    ..self
                },
                AssemblyOutcome::UnknownHandle => AssemblerModel {
                    failure: Some(
                        AssemblyError::UnknownHandle {
                            direction: handle.direction,
                            position: self.revealed as usize,
                        },
                    ),
                    ..self
                },
                _ => AssemblerModel { failure: Some(AssemblyError::Unrequested), ..self },
            },
            AssemblerAction::Build => match outcome {
                AssemblyOutcome::Built => AssemblerModel { built: true, ..self },
                AssemblyOutcome::BuildFailed => AssemblerModel {
                    failure: Some(AssemblyError::BuildFailed),
                    ..self
                },
                _ => AssemblerModel { failure: Some(AssemblyError::Unrequested), ..self },
            },
            AssemblerAction::Done => self,
            AssemblerAction::Abort(_) => self,
        }
    }

    /// The assembler after the outcomes were reported one after the other.
    pub open spec fn record_all(self, outcomes: Seq<AssemblyOutcome>) -> Self
        decreases outcomes.len(),
    {
        if outcomes.len() == 0 {
            self
        } else {
            self.record_all(outcomes.drop_last()).record(outcomes.last())
        }
    }
}

/// Reveals every handle in turn and then has the proof built.
pub struct ProofAssembler<H> {
    handles: Vec<CommitmentHandle<H>>,
    revealed: usize,
    built: bool,
    failure: Option<AssemblyError>,
}

impl<H> View for ProofAssembler<H> {
    type V = AssemblerModel<H>;

    closed spec fn view(&self) -> AssemblerModel<H> {
        AssemblerModel {
            handles: self.handles@,
            revealed: self.revealed as nat,
            built: self.built,
            failure: self.failure,
        }
    }
}

impl<H> ProofAssembler<H> {
    #[verifier::type_invariant]
    spec fn inv(self) -> bool {
        self@.wf()
    }
}

impl<H: Copy> ProofAssembler<H> {
    /// An assembler for the handles of both directions: the sent handles are
    /// revealed first, then the received ones, each list in its order.
    pub fn new(
        sent_handles: Vec<CommitmentHandle<H>>,
        received_handles: Vec<CommitmentHandle<H>>,
    ) -> (assembler: Self)
        ensures
            assembler@.handles == sent_handles@ + received_handles@,
            assembler@.revealed == 0,
            !assembler@.built,
            assembler@.failure is None,
            assembler@.wf(),
    {
        let mut handles = sent_handles;
        let mut rest = received_handles;
        handles.append(&mut rest);
        ProofAssembler { handles, revealed: 0, built: false, failure: None }
    }

    /// What the assembler waits for: the next handle to reveal, the build, or
    /// nothing more.
    pub fn pending(&self) -> (action: AssemblerAction<H>)
        ensures
            action == self@.pending(),
            self@.wf(),
    {
        proof {
            use_type_invariant(self);
        }
        match self.failure {
            Some(error) => AssemblerAction::Abort(error),
            None => if self.revealed < self.handles.len() {
                AssemblerAction::Reveal(self.handles[self.revealed])
            } else if !self.built {
                AssemblerAction::Build
            } else {
                AssemblerAction::Done
            },
        }
    }

    /// The assembler after it took note of how the pending step went.
    pub fn record(self, outcome: AssemblyOutcome) -> (next: Self)
        ensures
            next@ == self@.record(outcome),
            next@.wf(),
    {
        proof {
            use_type_invariant(&self);
        }
        let ProofAssembler { handles, revealed, built, failure } = self;
        match failure {
            Some(error) => ProofAssembler { handles, revealed, built, failure: Some(error) },
            None => {
                if revealed < handles.len() {
                    match outcome {
                        AssemblyOutcome::Revealed => ProofAssembler {
                            handles,
                            revealed: revealed + 1,
                            built,
                            failure: None,
                        },
                        AssemblyOutcome::UnknownHandle => {
                            let direction = handles[revealed].direction;
                            ProofAssembler {
                                handles,
                                revealed,
                                built,
                                failure: Some(
                                    AssemblyError::UnknownHandle { direction, position: revealed },
                                ),
                            }
                        },
                        _ => ProofAssembler {
                            handles,
                            revealed,
                            built,
                            failure: Some(AssemblyError::Unrequested),
                        },
                    }
                } else if !built {
                    match outcome {
                        AssemblyOutcome::Built => ProofAssembler {
                            handles,
                            revealed,
                            built: true,
                            failure: None,
                        },
                        AssemblyOutcome::BuildFailed => ProofAssembler {
                            handles,
                            revealed,
                            built,
                            failure: Some(AssemblyError::BuildFailed),
                        },
                        _ => ProofAssembler {
                            handles,
                            revealed,
                            built,
                            failure: Some(AssemblyError::Unrequested),
                        },
                    }
                } else {
                    ProofAssembler { handles, revealed, built, failure: None }
                }
            },
        }
    }

    /// Whether the proof is built: every handle was revealed and the build
    /// went through.
    pub fn is_built(&self) -> (built: bool)
        ensures
            built == self@.built,
            built ==> self@.revealed == self@.handles.len() && self@.failure is None,
    {
        proof {
            use_type_invariant(self);
        }
        self.built
    }
}

/// A failed assembly stays failed, whatever is reported afterwards.
pub proof fn lemma_failure_is_final<H>(
    assembler: AssemblerModel<H>,
    outcomes: Seq<AssemblyOutcome>,
)
    requires
        assembler.failure is Some,
    ensures
        assembler.record_all(outcomes) == assembler,
    decreases outcomes.len(),
{
    if outcomes.len() > 0 {
        lemma_failure_is_final(assembler, outcomes.drop_last());
    }
}

/// Reporting keeps an assembler well formed.
pub proof fn lemma_record_all_wf<H>(assembler: AssemblerModel<H>, outcomes: Seq<AssemblyOutcome>)
    requires
        assembler.wf(),
    ensures
        assembler.record_all(outcomes).wf(),
        assembler.record_all(outcomes).handles == assembler.handles,
    decreases outcomes.len(),
{
    if outcomes.len() > 0 {
        lemma_record_all_wf(assembler, outcomes.drop_last());
    }
}

/// A handle that the builder does not know is fatal: once it is reported for
/// the handle that was to be revealed, no later report leads to a proof, and
/// the failure names that handle's place.
pub proof fn lemma_unknown_handle_is_fatal<H>(
    assembler: AssemblerModel<H>,
    later: Seq<AssemblyOutcome>,
)
    requires
        assembler.wf(),
        assembler.pending() is Reveal,
    ensures
        !assembler.record(AssemblyOutcome::UnknownHandle).record_all(later).built,
        assembler.record(AssemblyOutcome::UnknownHandle).record_all(later).failure == Some(
            AssemblyError::UnknownHandle {
                direction: assembler.handles[assembler.revealed as int].direction,
                position: assembler.revealed as usize,
            },
        ),
{
    lemma_failure_is_final(assembler.record(AssemblyOutcome::UnknownHandle), later);
}

/// Nothing is dropped silently: a proof is built only after every handle
/// was revealed, each in its turn.
pub proof fn lemma_built_reveals_all<H>(
    assembler: AssemblerModel<H>,
    outcomes: Seq<AssemblyOutcome>,
)
    requires
        assembler.wf(),
    ensures
        assembler.record_all(outcomes).built ==> assembler.record_all(outcomes).revealed
            == assembler.handles.len() && assembler.record_all(outcomes).failure is None,
{
    lemma_record_all_wf(assembler, outcomes);
}

} // verus!
