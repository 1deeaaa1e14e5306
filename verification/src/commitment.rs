//! The commitment planner: one commitment per public range, sent ranges
//! first, each in the order the range finder gave, and one handle recorded
//! for each.
//!
//! The planner does not commit anything itself. It says which range is to be
//! committed next; whoever holds the live session commits it and tells the
//! planner how that went.

use crate::bytes::byte_strings;
use crate::range_finder::find_ranges;
use crate::ranges::{literals_nonempty, literals_of, public_ranges_of, spans_of, Span};
use std::ops::Range;
use vstd::prelude::*;

verus! {

/// The direction of traffic that a transcript, range or handle belongs to.
#[derive(Clone, Copy, Debug, PartialEq, Eq, Structural)]
pub enum Direction {
    Sent,
    Received,
}

/// One range of one transcript that is to be committed.
#[derive(Clone, Copy, Debug, PartialEq, Eq, Structural)]
pub struct CommitRequest {
    pub direction: Direction,
    pub start: usize,
    pub end: usize,
}

impl CommitRequest {
    /// The range to commit.
    pub fn range(&self) -> (range: Range<usize>)
        ensures
            range.start == self.start,
            range.end == self.end,
    {
        self.start..self.end
    }
}

/// What the session handed back when a range was committed, tagged with the
/// direction of the range. The identifier itself is opaque to this library.
#[derive(Clone, Copy, Debug, PartialEq, Eq)]
pub struct CommitmentHandle<H> {
    pub direction: Direction,
    pub id: H,
}

/// Why the planner gave up.
#[derive(Clone, Copy, Debug, PartialEq, Eq, Structural)]
pub enum CommitError {
    /// The session refused to commit this range.
    Rejected { direction: Direction, start: usize, end: usize },
    /// An outcome was reported though no commitment was asked for.
    Unrequested,
    /// Handles were asked for before every range was committed.
    Incomplete,
}

/// How one commitment went.
#[derive(Clone, Copy, Debug, PartialEq, Eq)]
pub enum CommitOutcome<H> {
    /// The session committed the range and handed back this identifier.
    Accepted(H),
    /// The session refused the range.
    Rejected,
}

/// What the planner waits for.
#[derive(Clone, Copy, Debug, PartialEq, Eq, Structural)]
pub enum PlannerAction {
    /// Commit this range and report the outcome.
    Commit(CommitRequest),
    /// Every range is committed.
    Done,
    /// The planner has failed; nothing more is to be committed.
    Abort(CommitError),
}

/// The request that stands for a range of one direction.
pub open spec fn request_for(direction: Direction, span: Span) -> CommitRequest {
    CommitRequest { direction, start: span.start as usize, end: span.end as usize }
}

/// One request for each range, in the order of the ranges.
pub open spec fn requests_for(direction: Direction, spans: Seq<Span>) -> Seq<CommitRequest> {
    spans.map_values(|s: Span| request_for(direction, s))
}

/// The plan for the public ranges of both directions: the sent ranges in
/// their order, then the received ranges in theirs.
pub open spec fn commitment_plan(sent: Seq<Span>, received: Seq<Span>) -> Seq<CommitRequest> {
    requests_for(Direction::Sent, sent) + requests_for(Direction::Received, received)
}

/// What a planner holds: the plan, the handles recorded so far, one for each
/// request from the first on, and the reason it gave up, if it did.
#[verifier::ext_equal]
pub struct PlannerModel<H> {
    pub requests: Seq<CommitRequest>,
    pub sent_count: nat,
    pub handles: Seq<CommitmentHandle<H>>,
    pub failure: Option<CommitError>,
}

impl<H> PlannerModel<H> {
    /// The sent requests come first, no request is answered twice, and each
    /// handle carries the direction of the request it answers.
    pub open spec fn wf(self) -> bool {
        &&& self.sent_count <= self.requests.len()
        &&& forall|i: int|
            0 <= i < self.requests.len() ==> ((#[trigger] self.requests[i]).direction
                == Direction::Sent <==> i < self.sent_count)
        &&& self.handles.len() <= self.requests.len()
        &&& forall|i: int|
            0 <= i < self.handles.len() ==> (#[trigger] self.handles[i]).direction
                == self.requests[i].direction
    }

    /// Every request is answered and nothing failed.
    pub open spec fn complete(self) -> bool {
        self.failure is None && self.handles.len() == self.requests.len()
    }

    /// What the planner waits for.
    pub open spec fn pending(self) -> PlannerAction {
        match self.failure {
            Some(error) => PlannerAction::Abort(error),
            None => if self.handles.len() < self.requests.len() {
                PlannerAction::Commit(self.requests[self.handles.len() as int])
            } else {
                PlannerAction::Done
            },
        }
    }

    /// The planner after an outcome was reported. A handle is recorded for
    /// the request that was pending; a refusal, or an outcome that nothing
    /// asked for, makes the planner fail; a planner that has failed stays as
    /// it is.
    pub open spec fn record(self, outcome: CommitOutcome<H>) -> Self {
        match self.pending() {
            PlannerAction::Commit(request) => match outcome {
                CommitOutcome::Accepted(id) => PlannerModel {
                    handles: self.handles.push(
                        CommitmentHandle { direction: request.direction, id },
                    ),
                    ..self
                },
                CommitOutcome::Rejected => PlannerModel {
                    failure: Some(
                        CommitError::Rejected {
                            direction: request.direction,
                            start: request.start,
                            end: request.end,
                        },
                    ),
                    ..self
                },
            },
            PlannerAction::Done => PlannerModel { failure: Some(CommitError::Unrequested), ..self },
            PlannerAction::Abort(_) => self,
        }
    }

    /// The planner after the outcomes were reported one after the other.
    pub open spec fn record_all(self, outcomes: Seq<CommitOutcome<H>>) -> Self
        decreases outcomes.len(),
    {
        if outcomes.len() == 0 {
            self
        } else {
            self.record_all(outcomes.drop_last()).record(outcomes.last())
        }
    }

    /// The handles recorded for the sent ranges.
    pub open spec fn sent_handles(self) -> Seq<CommitmentHandle<H>> {
        self.handles.take(self.sent_count as int)
    }

    /// The handles recorded for the received ranges.
    pub open spec fn received_handles(self) -> Seq<CommitmentHandle<H>> {
        self.handles.skip(self.sent_count as int)
    }
}

/// Asks for one commitment per public range and keeps the handles.
pub struct CommitmentPlanner<H> {
    requests: Vec<CommitRequest>,
    sent_count: usize,
    handles: Vec<CommitmentHandle<H>>,
    failure: Option<CommitError>,
}

impl<H> View for CommitmentPlanner<H> {
    type V = PlannerModel<H>;

    closed spec fn view(&self) -> PlannerModel<H> {
        PlannerModel {
            requests: self.requests@,
            sent_count: self.sent_count as nat,
            handles: self.handles@,
            failure: self.failure,
        }
    }
}

/// Appends one request for each range, in order.
fn push_requests(requests: &mut Vec<CommitRequest>, direction: Direction, ranges: &Vec<Range<usize>>)
    ensures
        final(requests)@ == old(requests)@ + requests_for(
            direction,
            spans_of(ranges@),
        ),
{
    let ghost spans = spans_of(ranges@);
    let mut i: usize = 0;
    assert(requests@ =~= old(requests)@ + requests_for(direction, spans.take(0)));
    while i < ranges.len()
        invariant
            i <= ranges@.len(),
            spans == spans_of(ranges@),
            requests@ == old(requests)@ + requests_for(direction, spans.take(i as int)),
        decreases ranges@.len() - i,
    {
        let ghost before = requests@;
        requests.push(CommitRequest { direction, start: ranges[i].start, end: ranges[i].end });
        assert(requests@ =~= old(requests)@ + requests_for(direction, spans.take(i + 1))) by {
            assert(spans[i as int].start as usize == ranges@[i as int].start);
            assert(spans[i as int].end as usize == ranges@[i as int].end);
        }
        i += 1;
    }
    assert(spans.take(ranges@.len() as int) =~= spans);
}

impl<H> CommitmentPlanner<H> {
    #[verifier::type_invariant]
    spec fn inv(self) -> bool {
        self@.wf()
    }
}

impl<H: Copy> CommitmentPlanner<H> {
    /// A planner for the public ranges of both directions, with nothing
    /// committed yet.
    pub fn new(sent_public: &Vec<Range<usize>>, received_public: &Vec<Range<usize>>) -> (planner:
        Self)
        ensures
            planner@.requests == commitment_plan(
                spans_of(sent_public@),
                spans_of(received_public@),
            ),
            planner@.sent_count == sent_public@.len(),
            planner@.handles.len() == 0,
            planner@.failure is None,
            planner@.wf(),
    {
        let mut requests: Vec<CommitRequest> = Vec::new();
        push_requests(&mut requests, Direction::Sent, sent_public);
        push_requests(&mut requests, Direction::Received, received_public);
        let planner = CommitmentPlanner {
            requests,
            sent_count: sent_public.len(),
            handles: Vec::new(),
            failure: None,
        };
        planner
    }

    /// What the planner waits for: the next range to commit, in plan order,
    /// or nothing more.
    pub fn pending(&self) -> (action: PlannerAction)
        ensures
            action == self@.pending(),
            self@.wf(),
    {
        proof {
            use_type_invariant(self);
        }
        match self.failure {
            Some(error) => PlannerAction::Abort(error),
            None => if self.handles.len() < self.requests.len() {
                PlannerAction::Commit(self.requests[self.handles.len()])
            } else {
                PlannerAction::Done
            },
        }
    }

    /// The planner after it took note of how the pending commitment went.
    pub fn record(self, outcome: CommitOutcome<H>) -> (next: Self)
        ensures
            next@ == self@.record(outcome),
            next@.wf(),
    {
        proof {
            use_type_invariant(&self);
        }
        let CommitmentPlanner { requests, sent_count, mut handles, failure } = self;
        match failure {
            Some(error) => CommitmentPlanner { requests, sent_count, handles, failure: Some(error) },
            None => {
                if handles.len() < requests.len() {
                    let request = requests[handles.len()];
                    match outcome {
                        CommitOutcome::Accepted(id) => {
                            handles.push(CommitmentHandle { direction: request.direction, id });
                            CommitmentPlanner { requests, sent_count, handles, failure: None }
                        },
                        CommitOutcome::Rejected => CommitmentPlanner {
                            requests,
                            sent_count,
                            handles,
                            failure: Some(
                                CommitError::Rejected {
                                    direction: request.direction,
                                    start: request.start,
                                    end: request.end,
                                },
                            ),
                        },
                    }
                } else {
                    CommitmentPlanner {
                        requests,
                        sent_count,
                        handles,
                        failure: Some(CommitError::Unrequested),
                    }
                }
            },
        }
    }

    /// The handles of the sent ranges and those of the received ranges, once
    /// every range is committed: one handle for each range, in the order of
    /// the ranges, each tagged with its direction.
    pub fn finish(self) -> (handles: Result<
        (Vec<CommitmentHandle<H>>, Vec<CommitmentHandle<H>>),
        CommitError,
    >)
        ensures
            self@.wf(),
            self@.complete() ==> handles is Ok,
            self@.failure matches Some(error) ==> handles == Err::<
                (Vec<CommitmentHandle<H>>, Vec<CommitmentHandle<H>>),
                CommitError,
            >(error),
            self@.failure is None && !self@.complete() ==> handles == Err::<
                (Vec<CommitmentHandle<H>>, Vec<CommitmentHandle<H>>),
                CommitError,
            >(CommitError::Incomplete),
            handles matches Ok(pair) ==> {
                &&& pair.0@ == self@.sent_handles()
                &&& pair.1@ == self@.received_handles()
                &&& pair.0@.len() == self@.sent_count
                &&& pair.0@.len() + pair.1@.len() == self@.requests.len()
                &&& forall|i: int|
                    0 <= i < pair.0@.len() ==> (#[trigger] pair.0@[i]).direction
                        == Direction::Sent
                &&& forall|i: int|
                    0 <= i < pair.1@.len() ==> (#[trigger] pair.1@[i]).direction
                        == Direction::Received
            },
    {
        proof {
            use_type_invariant(&self);
        }
        match self.failure {
            Some(error) => Err(error),
            None => {
                if self.handles.len() < self.requests.len() {
                    return Err(CommitError::Incomplete);
                }
                let mut sent: Vec<CommitmentHandle<H>> = Vec::new();
                let mut received: Vec<CommitmentHandle<H>> = Vec::new();
                let mut i: usize = 0;
                while i < self.handles.len()
                    invariant
                        i <= self.handles@.len(),
                        self.sent_count <= self.handles@.len(),
                        sent@ == self.handles@.take(
                            if i <= self.sent_count {
                                i as int
                            } else {
                                self.sent_count as int
                            },
                        ),
                        received@ == self.handles@.subrange(
                            self.sent_count as int,
                            if i <= self.sent_count {
                                self.sent_count as int
                            } else {
                                i as int
                            },
                        ),
                    decreases self.handles@.len() - i,
                {
                    let handle = self.handles[i];
                    if i < self.sent_count {
                        sent.push(handle);
                        assert(sent@ =~= self.handles@.take(i + 1));
                    } else {
                        received.push(handle);
                        assert(received@ =~= self.handles@.subrange(
                            self.sent_count as int,
                            i + 1,
                        ));
                    }
                    i += 1;
                }
                assert(received@ =~= self.handles@.skip(self.sent_count as int));
                proof {
                    assert forall|k: int| 0 <= k < sent@.len() implies (#[trigger] sent@[k]).direction
                        == Direction::Sent by {
                        assert(self.handles@[k].direction == self.requests@[k].direction);
                    }
                    assert forall|k: int| 0 <= k < received@.len() implies (
                    #[trigger] received@[k]).direction == Direction::Received by {
                        let at = k + self.sent_count;
                        assert(self.handles@[at].direction == self.requests@[at].direction);
                    }
                }
                Ok((sent, received))
            },
        }
    }
}

/// The values of a private-data set, borrowed as literals.
fn as_literals(values: &Vec<Vec<u8>>) -> (literals: Vec<&[u8]>)
    ensures
        literals_of(literals@) == byte_strings(values@),
{
    let mut literals: Vec<&[u8]> = Vec::new();
    let mut i: usize = 0;
    assert(literals_of(literals@) =~= byte_strings(values@).take(0));
    while i < values.len()
        invariant
            i <= values@.len(),
            literals_of(literals@) == byte_strings(values@).take(i as int),
        decreases values@.len() - i,
    {
        let ghost before = literals@;
        let literal = values[i].as_slice();
        literals.push(literal);
        assert(literals_of(literals@) =~= literals_of(before).push(values@[i as int]@));
        assert(byte_strings(values@).take(i + 1) =~= byte_strings(values@).take(i as int).push(
            values@[i as int]@,
        ));
        i += 1;
    }
    assert(byte_strings(values@).take(values@.len() as int) =~= byte_strings(values@));
    literals
}

/// Whether every value of a private-data set holds at least one byte.
pub fn all_nonempty(values: &Vec<Vec<u8>>) -> (nonempty: bool)
    ensures
        nonempty == literals_nonempty(byte_strings(values@)),
{
    let mut i: usize = 0;
    while i < values.len()
        invariant
            i <= values@.len(),
            forall|k: int| 0 <= k < i ==> (#[trigger] byte_strings(values@)[k]).len() > 0,
        decreases values@.len() - i,
    {
        if values[i].len() == 0 {
            assert(byte_strings(values@)[i as int].len() == 0);
            return false;
        }
        i += 1;
    }
    true
}

/// Finds the public ranges of both transcripts under the private data of
/// their direction and plans one commitment for each, sent ranges first.
///
/// A private value without bytes cannot be searched for: where either set
/// holds one, nothing is planned.
pub fn plan_commitments<H: Copy>(
    sent_transcript: &[u8],
    received_transcript: &[u8],
    sent_private: &Vec<Vec<u8>>,
    received_private: &Vec<Vec<u8>>,
) -> (planner: Option<CommitmentPlanner<H>>)
    ensures
        planner is Some <==> literals_nonempty(byte_strings(sent_private@)) && literals_nonempty(
            byte_strings(received_private@),
        ),
        planner matches Some(p) ==> {
            &&& p@.requests == commitment_plan(
                public_ranges_of(sent_transcript@, byte_strings(sent_private@)),
                public_ranges_of(received_transcript@, byte_strings(received_private@)),
            )
            &&& p@.sent_count == public_ranges_of(
                sent_transcript@,
                byte_strings(sent_private@),
            ).len()
            &&& p@.handles.len() == 0
            &&& p@.failure is None
            &&& p@.wf()
        },
{
    if !all_nonempty(sent_private) || !all_nonempty(received_private) {
        return None;
    }
    let sent_literals = as_literals(sent_private);
    let received_literals = as_literals(received_private);
    let (sent_public, _) = find_ranges(sent_transcript, sent_literals.as_slice());
    let (received_public, _) = find_ranges(received_transcript, received_literals.as_slice());
    Some(CommitmentPlanner::new(&sent_public, &received_public))
}

/// The outcomes of commitments that the session accepted with these
/// identifiers, in order.
pub open spec fn accepted<H>(ids: Seq<H>) -> Seq<CommitOutcome<H>> {
    ids.map_values(|id: H| CommitOutcome::Accepted(id))
}

/// Reporting keeps a planner well formed and its plan as it was.
pub proof fn lemma_record_keeps_plan<H>(planner: PlannerModel<H>, outcomes: Seq<CommitOutcome<H>>)
    requires
        planner.wf(),
    ensures
        planner.record_all(outcomes).wf(),
        planner.record_all(outcomes).requests == planner.requests,
        planner.record_all(outcomes).sent_count == planner.sent_count,
    decreases outcomes.len(),
{
    if outcomes.len() > 0 {
        lemma_record_keeps_plan(planner, outcomes.drop_last());
    }
}

/// One handle per range: a planner that is complete holds as many handles as
/// ranges were planned, as many sent handles as sent ranges, and the handle at
/// each place carries the direction of the range at that place.
pub proof fn lemma_one_handle_per_range<H>(planner: PlannerModel<H>)
    requires
        planner.wf(),
        planner.complete(),
    ensures
        planner.handles.len() == planner.requests.len(),
        planner.sent_handles().len() == planner.sent_count,
        planner.sent_handles().len() + planner.received_handles().len()
            == planner.requests.len(),
        forall|i: int|
            0 <= i < planner.requests.len() ==> (#[trigger] planner.handles[i]).direction
                == planner.requests[i].direction,
{
}

/// The pairing of ranges and handles follows the order of the plan: where
/// the session accepts one commitment after the other, the handle at each
/// place holds the identifier that was handed back for the range at that
/// place, and once as many were accepted as ranges were planned, the planner
/// is complete.
pub proof fn lemma_handles_follow_plan<H>(planner: PlannerModel<H>, ids: Seq<H>)
    requires
        planner.wf(),
        planner.failure is None,
        planner.handles.len() == 0,
        ids.len() <= planner.requests.len(),
    ensures
        planner.record_all(accepted(ids)).failure is None,
        planner.record_all(accepted(ids)).handles.len() == ids.len(),
        forall|i: int|
            0 <= i < ids.len() ==> #[trigger] planner.record_all(accepted(ids)).handles[i]
                == (CommitmentHandle { direction: planner.requests[i].direction, id: ids[i] }),
        ids.len() == planner.requests.len() ==> planner.record_all(accepted(ids)).complete(),
    decreases ids.len(),
{
    if ids.len() > 0 {
        lemma_handles_follow_plan(planner, ids.drop_last());
        lemma_record_keeps_plan(planner, accepted(ids.drop_last()));
        assert(accepted(ids).drop_last() =~= accepted(ids.drop_last()));
        assert(accepted(ids).last() == CommitOutcome::Accepted(ids.last()));
    }
}

/// A refusal is fatal: once the session refuses the range that was to be
/// committed, the planner has failed and stays so, and no handle is added.
pub proof fn lemma_rejection_is_final<H>(planner: PlannerModel<H>, later: Seq<CommitOutcome<H>>)
    requires
        planner.failure is Some,
    ensures
        planner.record_all(later) == planner,
    decreases later.len(),
{
    if later.len() > 0 {
        lemma_rejection_is_final(planner, later.drop_last());
    }
}

} // verus!
