use tlsn_langchain::commitment::{
    all_nonempty, plan_commitments, CommitError, CommitOutcome, CommitRequest, CommitmentHandle,
    CommitmentPlanner, Direction, PlannerAction,
};

fn sent(start: usize, end: usize) -> CommitRequest {
    CommitRequest { direction: Direction::Sent, start, end }
}

fn received(start: usize, end: usize) -> CommitRequest {
    CommitRequest { direction: Direction::Received, start, end }
}

#[test]
fn ranges_are_committed_sent_first_in_their_order() {
    let mut planner: CommitmentPlanner<u32> = CommitmentPlanner::new(&vec![0..5, 9..12], &vec![3..4]);
    assert_eq!(planner.pending(), PlannerAction::Commit(sent(0, 5)));
    planner = planner.record(CommitOutcome::Accepted(70));
    assert_eq!(planner.pending(), PlannerAction::Commit(sent(9, 12)));
    planner = planner.record(CommitOutcome::Accepted(71));
    assert_eq!(planner.pending(), PlannerAction::Commit(received(3, 4)));
    planner = planner.record(CommitOutcome::Accepted(5));
    assert_eq!(planner.pending(), PlannerAction::Done);
    let (sent_handles, received_handles) = planner.finish().unwrap();
    assert_eq!(
        sent_handles,
        vec![
            CommitmentHandle { direction: Direction::Sent, id: 70 },
            CommitmentHandle { direction: Direction::Sent, id: 71 },
        ]
    );
    assert_eq!(received_handles, vec![CommitmentHandle { direction: Direction::Received, id: 5 }]);
}

#[test]
fn a_request_gives_its_range() {
    assert_eq!(received(4, 9).range(), 4..9);
}

#[test]
fn a_refused_range_is_fatal() {
    let mut planner: CommitmentPlanner<u32> = CommitmentPlanner::new(&vec![0..5], &vec![3..4, 6..8]);
    planner = planner.record(CommitOutcome::Accepted(1));
    planner = planner.record(CommitOutcome::Rejected);
    let refused = CommitError::Rejected { direction: Direction::Received, start: 3, end: 4 };
    assert_eq!(planner.pending(), PlannerAction::Abort(refused));
    planner = planner.record(CommitOutcome::Accepted(2));
    planner = planner.record(CommitOutcome::Accepted(3));
    assert_eq!(planner.pending(), PlannerAction::Abort(refused));
    assert_eq!(planner.finish(), Err(refused));
}

#[test]
fn handles_are_not_given_out_early() {
    let mut planner: CommitmentPlanner<u32> = CommitmentPlanner::new(&vec![0..5], &vec![3..4]);
    planner = planner.record(CommitOutcome::Accepted(1));
    assert_eq!(planner.finish(), Err(CommitError::Incomplete));
}

#[test]
fn an_outcome_that_nothing_asked_for_is_fatal() {
    let mut planner: CommitmentPlanner<u32> = CommitmentPlanner::new(&vec![], &vec![]);
    assert_eq!(planner.pending(), PlannerAction::Done);
    planner = planner.record(CommitOutcome::Accepted(9));
    assert_eq!(planner.pending(), PlannerAction::Abort(CommitError::Unrequested));
    assert_eq!(planner.finish(), Err(CommitError::Unrequested));
}

#[test]
fn nothing_to_commit_gives_no_handles() {
    let planner: CommitmentPlanner<u32> = CommitmentPlanner::new(&vec![], &vec![]);
    assert_eq!(planner.finish(), Ok((vec![], vec![])));
}

#[test]
fn plans_the_public_ranges_of_both_transcripts() {
    let sent_transcript: &[u8] = b"authorization: Bearer abc123\r\n\r\n{}";
    let received_transcript: &[u8] = b"HTTP/1.1 200 OK\r\nrequest-id: r-9\r\n\r\nhi r-9";
    let sent_private = vec![b"Bearer abc123".to_vec()];
    let received_private = vec![b"r-9".to_vec()];
    let mut planner: CommitmentPlanner<u32> =
        plan_commitments(sent_transcript, received_transcript, &sent_private, &received_private)
            .unwrap();
    let mut plan = Vec::new();
    let mut next_id = 0;
    while let PlannerAction::Commit(request) = planner.pending() {
        plan.push(request);
        planner = planner.record(CommitOutcome::Accepted(next_id));
        next_id += 1;
    }
    assert_eq!(
        plan,
        vec![sent(0, 15), sent(28, 34), received(0, 29), received(32, 39)]
    );
    assert_eq!(&received_transcript[29..32], b"r-9");
    assert_eq!(&received_transcript[39..42], b"r-9");
    let (sent_handles, received_handles) = planner.finish().unwrap();
    assert_eq!(sent_handles.len(), 2);
    assert_eq!(received_handles.len(), 2);
    assert_eq!(received_handles[1], CommitmentHandle { direction: Direction::Received, id: 3 });
}

#[test]
fn a_private_value_without_bytes_cannot_be_planned_for() {
    let with_empty = vec![b"x".to_vec(), Vec::new()];
    let fine = vec![b"x".to_vec()];
    assert!(!all_nonempty(&with_empty));
    assert!(all_nonempty(&fine));
    assert!(all_nonempty(&Vec::new()));
    assert!(plan_commitments::<u32>(b"abc", b"abc", &with_empty, &fine).is_none());
    assert!(plan_commitments::<u32>(b"abc", b"abc", &fine, &with_empty).is_none());
    assert!(plan_commitments::<u32>(b"abc", b"abc", &fine, &fine).is_some());
}
