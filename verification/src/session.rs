//! The session orchestrator: the order in which one exchange is notarized.
//!
//! The orchestrator is a state machine. It performs no outside work: it says
//! what is to be done next (`pending`), and is told what came of it (`step`).
//! Setting up the prover, sending the request, committing, finalizing and
//! revealing are done by whoever drives it.
//!
//! A session passes through the phases `Uninitialized`, `ProverReady`,
//! `RequestSent`, `ResponseReceived`, `Notarizing` and `Finalized`, in this
//! order, or ends in `Failed`. There is no way back and no partial result.

use crate::assembler::{
    AssemblerAction, AssemblerModel, AssemblyError, AssemblyOutcome, ProofAssembler,
};
use crate::bytes::{byte_strings, names_of};
use crate::commitment::{
    commitment_plan, plan_commitments, CommitError, CommitOutcome, CommitRequest,
    CommitmentHandle, CommitmentPlanner, PlannerAction, PlannerModel,
};
use crate::config::PrivacySettings;
use crate::headers::header_fields;
use crate::ranges::{literals_nonempty, public_ranges_of};
use crate::redaction::{collect_private, extract_private_data};
use hyper::header::HeaderValue;
use hyper::HeaderMap;
use vstd::prelude::*;

verus! {

/// The status that a response must carry for the exchange to be notarized.
pub const STATUS_OK: u16 = 200;

/// Where a session stands.
#[derive(Clone, Copy, Debug, PartialEq, Eq, Structural)]
pub enum Phase {
    Uninitialized,
    ProverReady,
    RequestSent,
    ResponseReceived,
    Notarizing,
    Finalized,
    Failed,
}

/// Why a session failed.
#[derive(Clone, Copy, Debug, PartialEq, Eq, Structural)]
pub enum SessionError {
    /// The response did not carry the status `STATUS_OK`.
    BadStatus(u16),
    /// A private value without bytes was collected; it cannot be searched
    /// for in a transcript.
    EmptyPrivateValue,
    /// A range could not be committed.
    Commit(CommitError),
    /// The notarization could not be finalized.
    FinalizeFailed,
    /// The proof could not be assembled.
    Assembly(AssemblyError),
    /// Something was reported that the session did not wait for.
    UnexpectedEvent,
}

/// The part of the pipeline that a failure comes from.
#[derive(Clone, Copy, Debug, PartialEq, Eq, Structural)]
pub enum FailedStage {
    Exchange,
    RangeFinding,
    Commitment,
    Finalize,
    ProofBuild,
    Sequencing,
}

impl SessionError {
    /// The part of the pipeline that the failure comes from.
    pub open spec fn stage_of(self) -> FailedStage {
        match self {
            SessionError::BadStatus(_) => FailedStage::Exchange,
            SessionError::EmptyPrivateValue => FailedStage::RangeFinding,
            SessionError::Commit(_) => FailedStage::Commitment,
            SessionError::FinalizeFailed => FailedStage::Finalize,
            SessionError::Assembly(_) => FailedStage::ProofBuild,
            SessionError::UnexpectedEvent => FailedStage::Sequencing,
        }
    }

    /// The cause of the failure, in words.
    pub open spec fn message_of(self) -> Seq<char> {
        match self {
            SessionError::BadStatus(_) => "Request failed with status code"@,
            SessionError::EmptyPrivateValue => "Error finding ranges: a private value is empty"@,
            SessionError::Commit(_) => "Error committing a public range"@,
            SessionError::FinalizeFailed => "Error finalizing notarization"@,
            SessionError::Assembly(_) => "Error building the proof"@,
            SessionError::UnexpectedEvent => "Error sequencing the session"@,
        }
    }

    /// The part of the pipeline that the failure comes from.
    pub fn stage(&self) -> (stage: FailedStage)
        ensures
            stage == self.stage_of(),
    {
        match self {
            SessionError::BadStatus(_) => FailedStage::Exchange,
            SessionError::EmptyPrivateValue => FailedStage::RangeFinding,
            SessionError::Commit(_) => FailedStage::Commitment,
            SessionError::FinalizeFailed => FailedStage::Finalize,
            SessionError::Assembly(_) => FailedStage::ProofBuild,
            SessionError::UnexpectedEvent => FailedStage::Sequencing,
        }
    }

    /// The cause of the failure, in words. A status that was refused is not
    /// part of the words; it is held by the error itself.
    pub fn message(&self) -> (message: &'static str)
        ensures
            message@ == self.message_of(),
    {
        match self {
            SessionError::BadStatus(_) => "Request failed with status code",
            SessionError::EmptyPrivateValue => "Error finding ranges: a private value is empty",
            SessionError::Commit(_) => "Error committing a public range",
            SessionError::FinalizeFailed => "Error finalizing notarization",
            SessionError::Assembly(_) => "Error building the proof",
            SessionError::UnexpectedEvent => "Error sequencing the session",
        }
    }
}

/// What the session is told.
#[derive(Debug)]
pub enum Event<H> {
    /// The prover is set up and connected.
    ProverReady,
    /// The request is built; these are its headers.
    RequestBuilt { headers: HeaderMap<HeaderValue> },
    /// The response arrived with this status and these headers.
    ResponseReceived { status: u16, headers: HeaderMap<HeaderValue> },
    /// The prover closed the connection; these are the transcripts.
    ProverClosed { sent_transcript: Vec<u8>, received_transcript: Vec<u8> },
    /// The pending commitment went this way.
    Commit(CommitOutcome<H>),
    /// The notarization is finalized.
    SessionFinalized,
    /// The notarization could not be finalized.
    FinalizeFailed,
    /// The pending step of the proof assembly went this way.
    Assembly(AssemblyOutcome),
}

/// What the session waits for.
#[derive(Clone, Copy, Debug, PartialEq, Eq)]
pub enum Action<H> {
    /// Set up the prover with the notary and connect it to the server.
    SetUpProver,
    /// Build the request and report its headers.
    BuildRequest,
    /// Send the request, after telling the prover to defer decryption if
    /// asked to, and report the response.
    SendRequest { defer_decryption: bool },
    /// Wait for the prover to close and report the transcripts.
    CloseProver,
    /// Commit this range and report the outcome.
    Commit(CommitRequest),
    /// Finalize the notarization.
    Finalize,
    /// Reveal this handle to the proof builder and report the outcome.
    Reveal(CommitmentHandle<H>),
    /// Build the proof.
    BuildProof,
    /// The proof is there; nothing is left to do.
    Done,
    /// The session has failed; there is no proof.
    Abort(SessionError),
}

/// What an event holds.
#[verifier::ext_equal]
pub enum EventModel<H> {
    ProverReady,
    RequestBuilt { fields: Seq<(Seq<char>, Seq<u8>)> },
    ResponseReceived { status: u16, fields: Seq<(Seq<char>, Seq<u8>)> },
    ProverClosed { sent_transcript: Seq<u8>, received_transcript: Seq<u8> },
    Commit(CommitOutcome<H>),
    SessionFinalized,
    FinalizeFailed,
    Assembly(AssemblyOutcome),
}

impl<H> View for Event<H> {
    type V = EventModel<H>;

    open spec fn view(&self) -> EventModel<H> {
        match *self {
            Event::ProverReady => EventModel::ProverReady,
            Event::RequestBuilt { headers } => EventModel::RequestBuilt {
                fields: header_fields(headers),
            },
            Event::ResponseReceived { status, headers } => EventModel::ResponseReceived {
                status,
                fields: header_fields(headers),
            },
            Event::ProverClosed { sent_transcript, received_transcript } => EventModel::ProverClosed {
                sent_transcript: sent_transcript@,
                received_transcript: received_transcript@,
            },
            Event::Commit(outcome) => EventModel::Commit(outcome),
            Event::SessionFinalized => EventModel::SessionFinalized,
            Event::FinalizeFailed => EventModel::FinalizeFailed,
            Event::Assembly(outcome) => EventModel::Assembly(outcome),
        }
    }
}

/// What a session is busy with. While it notarizes it first commits, then
/// finalizes, then assembles the proof.
#[verifier::ext_equal]
pub enum StageModel<H> {
    Uninitialized,
    ProverReady,
    RequestSent,
    ResponseReceived,
    Committing(PlannerModel<H>),
    Assembling(AssemblerModel<H>),
    Finalized,
    Failed(SessionError),
}

/// What a session holds: the censor lists, the hint on decryption, the
/// private data collected for each direction, and what it is busy with.
#[verifier::ext_equal]
pub struct SessionModel<H> {
    pub request_topics: Seq<Seq<char>>,
    pub response_topics: Seq<Seq<char>>,
    pub defer_decryption: bool,
    pub sent_private: Seq<Seq<u8>>,
    pub received_private: Seq<Seq<u8>>,
    pub stage: StageModel<H>,
}

impl<H> SessionModel<H> {
    /// The phase the session is in.
    pub open spec fn phase(self) -> Phase {
        match self.stage {
            StageModel::Uninitialized => Phase::Uninitialized,
            StageModel::ProverReady => Phase::ProverReady,
            StageModel::RequestSent => Phase::RequestSent,
            StageModel::ResponseReceived => Phase::ResponseReceived,
            StageModel::Committing(_) => Phase::Notarizing,
            StageModel::Assembling(_) => Phase::Notarizing,
            StageModel::Finalized => Phase::Finalized,
            StageModel::Failed(_) => Phase::Failed,
        }
    }

    /// The planner and the assembler inside are well formed.
    pub open spec fn wf(self) -> bool {
        match self.stage {
            StageModel::Committing(planner) => planner.wf() && planner.failure is None,
            StageModel::Assembling(assembler) => assembler.wf() && assembler.failure is None
                && !assembler.built,
            _ => true,
        }
    }

    /// What the session waits for.
    pub open spec fn pending(self) -> Action<H> {
        match self.stage {
            StageModel::Uninitialized => Action::SetUpProver,
            StageModel::ProverReady => Action::BuildRequest,
            StageModel::RequestSent => Action::SendRequest {
                defer_decryption: self.defer_decryption,
            },
            StageModel::ResponseReceived => Action::CloseProver,
            StageModel::Committing(planner) => match planner.pending() {
                PlannerAction::Commit(request) => Action::Commit(request),
                PlannerAction::Done => Action::Finalize,
                PlannerAction::Abort(error) => Action::Abort(SessionError::Commit(error)),
            },
            StageModel::Assembling(assembler) => match assembler.pending() {
                AssemblerAction::Reveal(handle) => Action::Reveal(handle),
                AssemblerAction::Build => Action::BuildProof,
                AssemblerAction::Done => Action::Done,
                AssemblerAction::Abort(error) => Action::Abort(SessionError::Assembly(error)),
            },
            StageModel::Finalized => Action::Done,
            StageModel::Failed(error) => Action::Abort(error),
        }
    }

    /// The session with another stage.
    pub open spec fn at(self, stage: StageModel<H>) -> Self {
        SessionModel { stage, ..self }
    }

    /// The stage after the transcripts came in: one commitment is planned
    /// for each public range, unless a private value has no bytes.
    pub open spec fn planned(self, sent_transcript: Seq<u8>, received_transcript: Seq<u8>)
        -> StageModel<H> {
        if literals_nonempty(self.sent_private) && literals_nonempty(self.received_private) {
            StageModel::Committing(
                PlannerModel {
                    requests: commitment_plan(
                        public_ranges_of(sent_transcript, self.sent_private),
                        public_ranges_of(received_transcript, self.received_private),
                    ),
                    sent_count: public_ranges_of(sent_transcript, self.sent_private).len(),
                    handles: Seq::empty(),
                    failure: None,
                },
            )
        } else {
            StageModel::Failed(SessionError::EmptyPrivateValue)
        }
    }

    /// The stage after a commitment was reported.
    pub open spec fn committed(planner: PlannerModel<H>, outcome: CommitOutcome<H>) -> StageModel<
        H,
    > {
        match planner.record(outcome).failure {
            Some(error) => StageModel::Failed(SessionError::Commit(error)),
            None => StageModel::Committing(planner.record(outcome)),
        }
    }

    /// The stage after a step of the assembly was reported.
    pub open spec fn assembled(assembler: AssemblerModel<H>, outcome: AssemblyOutcome)
        -> StageModel<H> {
        match assembler.record(outcome).failure {
            Some(error) => StageModel::Failed(SessionError::Assembly(error)),
            None => if assembler.record(outcome).built {
                StageModel::Finalized
            } else {
                StageModel::Assembling(assembler.record(outcome))
            },
        }
    }

    /// The session after an event.
    ///
    /// Each phase accepts the event that its pending action leads to. The
    /// headers of the request and of the response add to the private data of
    /// their direction; those of the response do so whatever its status, and
    /// only then does a status other than `STATUS_OK` make the session fail.
    /// Finalization is accepted once every range is committed. Anything else
    /// is a violation of the order and makes the session fail. A session that
    /// has failed, or has finished, takes no further notice.
    pub open spec fn next(self, event: EventModel<H>) -> Self {
        match self.stage {
            StageModel::Failed(_) => self,
            StageModel::Finalized => self,
            StageModel::Uninitialized => match event {
                EventModel::ProverReady => self.at(StageModel::ProverReady),
                _ => self.at(StageModel::Failed(SessionError::UnexpectedEvent)),
            },
            StageModel::ProverReady => match event {
                EventModel::RequestBuilt { fields } => SessionModel {
                    sent_private: collect_private(self.sent_private, fields, self.request_topics),
                    stage: StageModel::RequestSent,
                    ..self
                },
                _ => self.at(StageModel::Failed(SessionError::UnexpectedEvent)),
            },
            StageModel::RequestSent => match event {
                EventModel::ResponseReceived { status, fields } => SessionModel {
                    received_private: collect_private(
                        self.received_private,
                        fields,
                        self.response_topics,
                    ),
                    stage: if status == STATUS_OK {
                        StageModel::ResponseReceived
                    } else {
                        StageModel::Failed(SessionError::BadStatus(status))
                    },
                    ..self
                },
                _ => self.at(StageModel::Failed(SessionError::UnexpectedEvent)),
            },
            StageModel::ResponseReceived => match event {
                EventModel::ProverClosed { sent_transcript, received_transcript } => self.at(
                    self.planned(sent_transcript, received_transcript),
                ),
                _ => self.at(StageModel::Failed(SessionError::UnexpectedEvent)),
            },
            StageModel::Committing(planner) => match event {
                EventModel::Commit(outcome) => self.at(Self::committed(planner, outcome)),
                EventModel::SessionFinalized => if planner.complete() {
                    self.at(
                        StageModel::Assembling(
                            AssemblerModel {
                                handles: planner.handles,
                                revealed: 0,
                                built: false,
                                failure: None,
                            },
                        ),
                    )
                } else {
                    self.at(StageModel::Failed(SessionError::UnexpectedEvent))
                },
                EventModel::FinalizeFailed => if planner.complete() {
                    self.at(StageModel::Failed(SessionError::FinalizeFailed))
                } else {
                    self.at(StageModel::Failed(SessionError::UnexpectedEvent))
                },
                _ => self.at(StageModel::Failed(SessionError::UnexpectedEvent)),
            },
            StageModel::Assembling(assembler) => match event {
                EventModel::Assembly(outcome) => self.at(Self::assembled(assembler, outcome)),
                _ => self.at(StageModel::Failed(SessionError::UnexpectedEvent)),
            },
        }
    }

    /// The session after the events, one after the other.
    pub open spec fn run(self, events: Seq<EventModel<H>>) -> Self
        decreases events.len(),
    {
        if events.len() == 0 {
            self
        } else {
            self.run(events.drop_last()).next(events.last())
        }
    }
}

/// What a session is busy with.
enum Stage<H> {
    Uninitialized,
    ProverReady,
    RequestSent,
    ResponseReceived,
    Committing(CommitmentPlanner<H>),
    Assembling(ProofAssembler<H>),
    Finalized,
    Failed(SessionError),
}

impl<H> View for Stage<H> {
    type V = StageModel<H>;

    closed spec fn view(&self) -> StageModel<H> {
        match *self {
            Stage::Uninitialized => StageModel::Uninitialized,
            Stage::ProverReady => StageModel::ProverReady,
            Stage::RequestSent => StageModel::RequestSent,
            Stage::ResponseReceived => StageModel::ResponseReceived,
            Stage::Committing(planner) => StageModel::Committing(planner@),
            Stage::Assembling(assembler) => StageModel::Assembling(assembler@),
            Stage::Finalized => StageModel::Finalized,
            Stage::Failed(error) => StageModel::Failed(error),
        }
    }
}

/// One notarized exchange, from the set-up of the prover to the proof.
pub struct Session<H> {
    privacy: PrivacySettings,
    defer_decryption: bool,
    sent_private: Vec<Vec<u8>>,
    received_private: Vec<Vec<u8>>,
    stage: Stage<H>,
}

impl<H> View for Session<H> {
    type V = SessionModel<H>;

    closed spec fn view(&self) -> SessionModel<H> {
        SessionModel {
            request_topics: names_of(self.privacy.request_topics_to_censor@),
            response_topics: names_of(self.privacy.response_topics_to_censor@),
            defer_decryption: self.defer_decryption,
            sent_private: byte_strings(self.sent_private@),
            received_private: byte_strings(self.received_private@),
            stage: self.stage@,
        }
    }
}

impl<H> Session<H> {
    #[verifier::type_invariant]
    spec fn inv(self) -> bool {
        self@.wf()
    }
}

impl<H: Copy> Session<H> {
    /// A session that has not begun, with the censor lists of `privacy` and
    /// no private data.
    pub fn new(privacy: PrivacySettings, defer_decryption: bool) -> (session: Self)
        ensures
            session@.request_topics == names_of(privacy.request_topics_to_censor@),
            session@.response_topics == names_of(privacy.response_topics_to_censor@),
            session@.defer_decryption == defer_decryption,
            session@.sent_private.len() == 0,
            session@.received_private.len() == 0,
            session@.stage is Uninitialized,
    {
        Session {
            privacy,
            defer_decryption,
            sent_private: Vec::new(),
            received_private: Vec::new(),
            stage: Stage::Uninitialized,
        }
    }

    /// The phase the session is in.
    pub fn phase(&self) -> (phase: Phase)
        ensures
            phase == self@.phase(),
    {
        match &self.stage {
            Stage::Uninitialized => Phase::Uninitialized,
            Stage::ProverReady => Phase::ProverReady,
            Stage::RequestSent => Phase::RequestSent,
            Stage::ResponseReceived => Phase::ResponseReceived,
            Stage::Committing(_) => Phase::Notarizing,
            Stage::Assembling(_) => Phase::Notarizing,
            Stage::Finalized => Phase::Finalized,
            Stage::Failed(_) => Phase::Failed,
        }
    }

    /// What the session waits for.
    pub fn pending(&self) -> (action: Action<H>)
        ensures
            action == self@.pending(),
            self@.wf(),
    {
        proof {
            use_type_invariant(self);
        }
        match &self.stage {
            Stage::Uninitialized => Action::SetUpProver,
            Stage::ProverReady => Action::BuildRequest,
            Stage::RequestSent => Action::SendRequest { defer_decryption: self.defer_decryption },
            Stage::ResponseReceived => Action::CloseProver,
            Stage::Committing(planner) => match planner.pending() {
                PlannerAction::Commit(request) => Action::Commit(request),
                PlannerAction::Done => Action::Finalize,
                PlannerAction::Abort(error) => Action::Abort(SessionError::Commit(error)),
            },
            Stage::Assembling(assembler) => match assembler.pending() {
                AssemblerAction::Reveal(handle) => Action::Reveal(handle),
                AssemblerAction::Build => Action::BuildProof,
                AssemblerAction::Done => Action::Done,
                AssemblerAction::Abort(error) => Action::Abort(SessionError::Assembly(error)),
            },
            Stage::Finalized => Action::Done,
            Stage::Failed(error) => Action::Abort(*error),
        }
    }

    /// The private data collected from the headers of the request.
    pub fn sent_private_data(&self) -> (data: &Vec<Vec<u8>>)
        ensures
            byte_strings(data@) == self@.sent_private,
    {
        &self.sent_private
    }

    /// The private data collected from the headers of the response.
    pub fn received_private_data(&self) -> (data: &Vec<Vec<u8>>)
        ensures
            byte_strings(data@) == self@.received_private,
    {
        &self.received_private
    }

    /// The session after an event.
    pub fn step(self, event: Event<H>) -> (next: Self)
        ensures
            next@ == self@.next(event@),
            next@.wf(),
    {
        proof {
            use_type_invariant(&self);
        }
        let Session { privacy, defer_decryption, mut sent_private, mut received_private, stage } =
            self;
        let stage = match stage {
            Stage::Failed(error) => Stage::Failed(error),
            Stage::Finalized => Stage::Finalized,
            Stage::Uninitialized => match event {
                Event::ProverReady => Stage::ProverReady,
                _ => Stage::Failed(SessionError::UnexpectedEvent),
            },
            Stage::ProverReady => match event {
                Event::RequestBuilt { headers } => {
                    extract_private_data(
                        &mut sent_private,
                        &headers,
                        privacy.request_topics_to_censor,
                    );
                    Stage::RequestSent
                },
                _ => Stage::Failed(SessionError::UnexpectedEvent),
            },
            Stage::RequestSent => match event {
                Event::ResponseReceived { status, headers } => {
                    extract_private_data(
                        &mut received_private,
                        &headers,
                        privacy.response_topics_to_censor,
                    );
                    if status == STATUS_OK {
                        Stage::ResponseReceived
                    } else {
                        Stage::Failed(SessionError::BadStatus(status))
                    }
                },
                _ => Stage::Failed(SessionError::UnexpectedEvent),
            },
            Stage::ResponseReceived => match event {
                Event::ProverClosed { sent_transcript, received_transcript } => {
                    match plan_commitments(
                        sent_transcript.as_slice(),
                        received_transcript.as_slice(),
                        &sent_private,
                        &received_private,
                    ) {
                        Some(planner) => {
                            assert(StageModel::Committing(planner@) =~= self@.planned(
                                sent_transcript@,
                                received_transcript@,
                            ));
                            Stage::Committing(planner)
                        },
                        None => Stage::Failed(SessionError::EmptyPrivateValue),
                    }
                },
                _ => Stage::Failed(SessionError::UnexpectedEvent),
            },
            Stage::Committing(planner) => match event {
                Event::Commit(outcome) => {
                    let planner = planner.record(outcome);
                    match planner.pending() {
                        PlannerAction::Abort(error) => Stage::Failed(SessionError::Commit(error)),
                        _ => Stage::Committing(planner),
                    }
                },
                Event::SessionFinalized => {
                    let ghost handles = planner@.handles;
                    let ghost sent_count = planner@.sent_count as int;
                    match planner.finish() {
                        Ok((sent_handles, received_handles)) => {
                            assert(handles.take(sent_count) + handles.skip(sent_count)
                                =~= handles);
                            let assembler = ProofAssembler::new(sent_handles, received_handles);
                            assert(assembler@ =~= AssemblerModel {
                                handles,
                                revealed: 0,
                                built: false,
                                failure: None,
                            });
                            Stage::Assembling(assembler)
                        },
                        Err(_) => Stage::Failed(SessionError::UnexpectedEvent),
                    }
                },
                Event::FinalizeFailed => match planner.pending() {
                    PlannerAction::Done => Stage::Failed(SessionError::FinalizeFailed),
                    _ => Stage::Failed(SessionError::UnexpectedEvent),
                },
                _ => Stage::Failed(SessionError::UnexpectedEvent),
            },
            Stage::Assembling(assembler) => match event {
                Event::Assembly(outcome) => {
                    let assembler = assembler.record(outcome);
                    match assembler.pending() {
                        AssemblerAction::Abort(error) => Stage::Failed(
                            SessionError::Assembly(error),
                        ),
                        AssemblerAction::Done => Stage::Finalized,
                        _ => Stage::Assembling(assembler),
                    }
                },
                _ => Stage::Failed(SessionError::UnexpectedEvent),
            },
        };
        let next = Session { privacy, defer_decryption, sent_private, received_private, stage };
        assert(next@ =~= self@.next(event@));
        next
    }
}

} // verus!
