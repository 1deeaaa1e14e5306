//! What holds of every session, whatever it is told.

use crate::assembler::{AssemblerModel, AssemblyError, AssemblyOutcome};
use crate::commitment::PlannerModel;
use crate::redaction::collect_private;
use crate::session::{
    Action, EventModel, Phase, SessionError, SessionModel, StageModel, STATUS_OK,
};
use vstd::prelude::*;

verus! {

/// The place of a phase in the order of a session.
pub open spec fn rank(phase: Phase) -> int {
    match phase {
        Phase::Uninitialized => 0,
        Phase::ProverReady => 1,
        Phase::RequestSent => 2,
        Phase::ResponseReceived => 3,
        Phase::Notarizing => 4,
        Phase::Finalized => 5,
        Phase::Failed => 6,
    }
}

/// An event keeps what is inside a session well formed.
pub proof fn lemma_next_wf<H>(session: SessionModel<H>, event: EventModel<H>)
    requires
        session.wf(),
    ensures
        session.next(event).wf(),
{
}

/// Events keep what is inside a session well formed.
pub proof fn lemma_run_wf<H>(session: SessionModel<H>, events: Seq<EventModel<H>>)
    requires
        session.wf(),
    ensures
        session.run(events).wf(),
    decreases events.len(),
{
    if events.len() > 0 {
        lemma_run_wf(session, events.drop_last());
        lemma_next_wf(session.run(events.drop_last()), events.last());
    }
}

/// There is no way back: an event leaves the session in its phase, moves it
/// to the next one, or makes it fail.
pub proof fn lemma_phase_advances<H>(session: SessionModel<H>, event: EventModel<H>)
    requires
        session.wf(),
    ensures
        session.next(event).phase() == session.phase() || session.next(event).phase()
            == Phase::Failed || rank(session.next(event).phase()) == rank(session.phase()) + 1,
{
}

/// The censor lists and the hint on decryption stay as they were set.
pub proof fn lemma_settings_stay<H>(session: SessionModel<H>, event: EventModel<H>)
    ensures
        session.next(event).request_topics == session.request_topics,
        session.next(event).response_topics == session.response_topics,
        session.next(event).defer_decryption == session.defer_decryption,
{
}

/// Private data is collected from the headers of the request and of the
/// response and at no other time.
pub proof fn lemma_private_data_changes<H>(session: SessionModel<H>, event: EventModel<H>)
    ensures
        !(session.stage is ProverReady && event is RequestBuilt) ==> session.next(
            event,
        ).sent_private == session.sent_private,
        !(session.stage is RequestSent && event is ResponseReceived) ==> session.next(
            event,
        ).received_private == session.received_private,
{
}

/// A failed session stays failed, with the reason it failed for, whatever
/// it is told afterwards.
pub proof fn lemma_failed_is_final<H>(session: SessionModel<H>, events: Seq<EventModel<H>>)
    requires
        session.stage is Failed,
    ensures
        session.run(events) == session,
    decreases events.len(),
{
    if events.len() > 0 {
        lemma_failed_is_final(session, events.drop_last());
    }
}

/// A finished session stays as it is.
pub proof fn lemma_finalized_is_final<H>(session: SessionModel<H>, events: Seq<EventModel<H>>)
    requires
        session.stage is Finalized,
    ensures
        session.run(events) == session,
    decreases events.len(),
{
    if events.len() > 0 {
        lemma_finalized_is_final(session, events.drop_last());
    }
}

/// A response with another status than `STATUS_OK` ends the session before
/// any range is looked for: the private data of its headers is still
/// collected, the session has failed with that status, and whatever it is
/// told afterwards it asks for nothing but to abort. It never commits,
/// reveals or builds, and never finishes.
pub proof fn lemma_bad_status_fails<H>(
    session: SessionModel<H>,
    status: u16,
    fields: Seq<(Seq<char>, Seq<u8>)>,
    later: Seq<EventModel<H>>,
)
    requires
        session.stage is RequestSent,
        status != STATUS_OK,
    ensures
        session.next(EventModel::ResponseReceived { status, fields }).run(later).stage
            == StageModel::<H>::Failed(SessionError::BadStatus(status)),
        session.next(EventModel::ResponseReceived { status, fields }).run(later).pending()
            == Action::<H>::Abort(SessionError::BadStatus(status)),
        session.next(EventModel::ResponseReceived { status, fields }).run(later).phase()
            == Phase::Failed,
        session.next(EventModel::ResponseReceived { status, fields }).run(
            later,
        ).received_private == collect_private(
            session.received_private,
            fields,
            session.response_topics,
        ),
{
    lemma_failed_is_final(session.next(EventModel::ResponseReceived { status, fields }), later);
}

/// Finalization is accepted exactly when every planned range has its
/// handle. The proof assembly then starts from those handles, one for each
/// range and in the order of the plan, with none revealed.
pub proof fn lemma_finalize_needs_every_handle<H>(
    session: SessionModel<H>,
    planner: PlannerModel<H>,
)
    requires
        session.stage == StageModel::Committing(planner),
        session.wf(),
    ensures
        session.next(EventModel::SessionFinalized).stage is Assembling <==> planner.handles.len()
            == planner.requests.len(),
        session.next(EventModel::SessionFinalized).stage matches StageModel::Assembling(assembler)
            ==> {
            &&& assembler.handles == planner.handles
            &&& assembler.handles.len() == planner.requests.len()
            &&& assembler.revealed == 0
            &&& forall|i: int|
                0 <= i < planner.requests.len() ==> (#[trigger] assembler.handles[i]).direction
                    == planner.requests[i].direction
        },
        !(session.next(EventModel::SessionFinalized).stage is Assembling) ==> session.next(
            EventModel::SessionFinalized,
        ).stage == StageModel::<H>::Failed(SessionError::UnexpectedEvent),
{
}

/// A handle that the proof builder does not know ends the session: it has
/// failed with the place of that handle, and whatever it is told afterwards
/// it never finishes.
pub proof fn lemma_unknown_handle_fails<H>(
    session: SessionModel<H>,
    assembler: AssemblerModel<H>,
    later: Seq<EventModel<H>>,
)
    requires
        session.stage == StageModel::Assembling(assembler),
        session.wf(),
        assembler.revealed < assembler.handles.len(),
    ensures
        session.next(EventModel::Assembly(AssemblyOutcome::UnknownHandle)).run(later).stage
            == StageModel::<H>::Failed(
            SessionError::Assembly(
                AssemblyError::UnknownHandle {
                    direction: assembler.handles[assembler.revealed as int].direction,
                    position: assembler.revealed as usize,
                },
            ),
        ),
{
    lemma_failed_is_final(
        session.next(EventModel::Assembly(AssemblyOutcome::UnknownHandle)),
        later,
    );
}

/// A session finishes only from the proof assembly, after every handle was
/// revealed and the proof was built: there is no proof from part of the
/// handles.
pub proof fn lemma_finishes_after_all_revealed<H>(session: SessionModel<H>, event: EventModel<H>)
    requires
        session.wf(),
        !(session.stage is Finalized),
        session.next(event).stage is Finalized,
    ensures
        event == EventModel::<H>::Assembly(AssemblyOutcome::Built),
        session.stage matches StageModel::Assembling(assembler) && assembler.revealed
            == assembler.handles.len(),
{
}

} // verus!
