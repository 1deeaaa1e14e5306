use hyper::header::{HeaderName, HeaderValue};
use hyper::HeaderMap;
use tlsn_langchain::assembler::{AssemblyError, AssemblyOutcome};
use tlsn_langchain::commitment::{
    CommitError, CommitOutcome, CommitRequest, CommitmentHandle, Direction,
};
use tlsn_langchain::config::PrivacySettings;
use tlsn_langchain::session::{Action, Event, FailedStage, Phase, Session, SessionError};

fn headers(fields: &[(&'static str, &'static str)]) -> HeaderMap {
    let mut map = HeaderMap::new();
    for (name, value) in fields {
        map.append(HeaderName::from_static(name), HeaderValue::from_static(value));
    }
    map
}

fn request_headers() -> HeaderMap {
    headers(&[("host", "api.red-pill.ai"), ("authorization", "Bearer abc123")])
}

fn response_headers() -> HeaderMap {
    headers(&[("content-type", "application/json"), ("request-id", "r-9"), ("cf-ray", "r-9")])
}

fn sent_transcript() -> Vec<u8> {
    b"POST /v1 HTTP/1.1\r\nauthorization: Bearer abc123\r\n\r\n{}".to_vec()
}

fn received_transcript() -> Vec<u8> {
    b"HTTP/1.1 200 OK\r\nrequest-id: r-9\r\n\r\nhello".to_vec()
}

fn after_response(status: u16) -> Session<u32> {
    let mut session: Session<u32> = Session::new(PrivacySettings::default(), true);
    session = session.step(Event::ProverReady);
    session = session.step(Event::RequestBuilt { headers: request_headers() });
    session.step(Event::ResponseReceived { status, headers: response_headers() })
}

#[test]
fn a_session_runs_from_set_up_to_the_proof() {
    let mut session: Session<u32> = Session::new(PrivacySettings::default(), true);
    assert_eq!(session.phase(), Phase::Uninitialized);
    assert_eq!(session.pending(), Action::SetUpProver);

    session = session.step(Event::ProverReady);
    assert_eq!(session.phase(), Phase::ProverReady);
    assert_eq!(session.pending(), Action::BuildRequest);

    session = session.step(Event::RequestBuilt { headers: request_headers() });
    assert_eq!(session.phase(), Phase::RequestSent);
    assert_eq!(session.pending(), Action::SendRequest { defer_decryption: true });
    assert_eq!(session.sent_private_data(), &vec![b"Bearer abc123".to_vec()]);

    session = session.step(Event::ResponseReceived { status: 200, headers: response_headers() });
    assert_eq!(session.phase(), Phase::ResponseReceived);
    assert_eq!(session.pending(), Action::CloseProver);
    assert_eq!(session.received_private_data(), &vec![b"r-9".to_vec()]);

    session = session.step(Event::ProverClosed {
        sent_transcript: sent_transcript(),
        received_transcript: received_transcript(),
    });
    assert_eq!(session.phase(), Phase::Notarizing);

    let mut committed = Vec::new();
    let mut next_id = 100;
    while let Action::Commit(request) = session.pending() {
        committed.push(request);
        session = session.step(Event::Commit(CommitOutcome::Accepted(next_id)));
        next_id += 1;
    }
    assert_eq!(
        committed,
        vec![
            CommitRequest { direction: Direction::Sent, start: 0, end: 34 },
            CommitRequest { direction: Direction::Sent, start: 47, end: 53 },
            CommitRequest { direction: Direction::Received, start: 0, end: 29 },
            CommitRequest { direction: Direction::Received, start: 32, end: 41 },
        ]
    );
    assert_eq!(&sent_transcript()[34..47], b"Bearer abc123");
    assert_eq!(&received_transcript()[29..32], b"r-9");
    assert_eq!(session.pending(), Action::Finalize);
    assert_eq!(session.phase(), Phase::Notarizing);

    session = session.step(Event::SessionFinalized);
    let mut revealed = Vec::new();
    while let Action::Reveal(handle) = session.pending() {
        revealed.push(handle);
        session = session.step(Event::Assembly(AssemblyOutcome::Revealed));
    }
    assert_eq!(
        revealed,
        vec![
            CommitmentHandle { direction: Direction::Sent, id: 100 },
            CommitmentHandle { direction: Direction::Sent, id: 101 },
            CommitmentHandle { direction: Direction::Received, id: 102 },
            CommitmentHandle { direction: Direction::Received, id: 103 },
        ]
    );
    assert_eq!(session.pending(), Action::BuildProof);
    assert_eq!(session.phase(), Phase::Notarizing);

    session = session.step(Event::Assembly(AssemblyOutcome::Built));
    assert_eq!(session.phase(), Phase::Finalized);
    assert_eq!(session.pending(), Action::Done);

    session = session.step(Event::ProverReady);
    assert_eq!(session.phase(), Phase::Finalized);
    assert_eq!(session.pending(), Action::Done);
}

#[test]
fn the_hint_on_decryption_is_passed_through() {
    let mut session: Session<u32> = Session::new(PrivacySettings::default(), false);
    session = session.step(Event::ProverReady);
    session = session.step(Event::RequestBuilt { headers: HeaderMap::new() });
    assert_eq!(session.pending(), Action::SendRequest { defer_decryption: false });
    assert!(session.sent_private_data().is_empty());
}

#[test]
fn a_response_that_is_not_ok_ends_the_session() {
    let mut session = after_response(503);
    assert_eq!(session.phase(), Phase::Failed);
    assert_eq!(session.pending(), Action::Abort(SessionError::BadStatus(503)));
    assert_eq!(session.received_private_data(), &vec![b"r-9".to_vec()]);

    session = session.step(Event::ProverClosed {
        sent_transcript: sent_transcript(),
        received_transcript: received_transcript(),
    });
    session = session.step(Event::Commit(CommitOutcome::Accepted(1)));
    session = session.step(Event::SessionFinalized);
    session = session.step(Event::Assembly(AssemblyOutcome::Built));
    assert_eq!(session.phase(), Phase::Failed);
    assert_eq!(session.pending(), Action::Abort(SessionError::BadStatus(503)));
}

#[test]
fn only_the_status_200_is_accepted() {
    assert_eq!(after_response(200).phase(), Phase::ResponseReceived);
    assert_eq!(after_response(201).pending(), Action::Abort(SessionError::BadStatus(201)));
    assert_eq!(after_response(404).pending(), Action::Abort(SessionError::BadStatus(404)));
}

#[test]
fn an_event_out_of_order_ends_the_session() {
    let mut session: Session<u32> = Session::new(PrivacySettings::default(), true);
    session = session.step(Event::RequestBuilt { headers: request_headers() });
    assert_eq!(session.phase(), Phase::Failed);
    assert_eq!(session.pending(), Action::Abort(SessionError::UnexpectedEvent));
    assert!(session.sent_private_data().is_empty());

    let session = after_response(200).step(Event::SessionFinalized);
    assert_eq!(session.pending(), Action::Abort(SessionError::UnexpectedEvent));
}

#[test]
fn finalization_is_refused_before_every_range_is_committed() {
    let mut session = after_response(200).step(Event::ProverClosed {
        sent_transcript: sent_transcript(),
        received_transcript: received_transcript(),
    });
    session = session.step(Event::Commit(CommitOutcome::Accepted(1)));
    session = session.step(Event::SessionFinalized);
    assert_eq!(session.pending(), Action::Abort(SessionError::UnexpectedEvent));
}

#[test]
fn a_refused_commitment_ends_the_session() {
    let mut session = after_response(200).step(Event::ProverClosed {
        sent_transcript: sent_transcript(),
        received_transcript: received_transcript(),
    });
    session = session.step(Event::Commit(CommitOutcome::Accepted(1)));
    session = session.step(Event::Commit(CommitOutcome::Rejected));
    let error = SessionError::Commit(CommitError::Rejected {
        direction: Direction::Sent,
        start: 47,
        end: 53,
    });
    assert_eq!(session.pending(), Action::Abort(error));
    assert_eq!(error.stage(), FailedStage::Commitment);
    session = session.step(Event::Commit(CommitOutcome::Accepted(2)));
    assert_eq!(session.phase(), Phase::Failed);
}

#[test]
fn a_failed_finalization_ends_the_session() {
    let mut session = after_response(200).step(Event::ProverClosed {
        sent_transcript: Vec::new(),
        received_transcript: Vec::new(),
    });
    assert_eq!(session.pending(), Action::Finalize);
    session = session.step(Event::FinalizeFailed);
    assert_eq!(session.pending(), Action::Abort(SessionError::FinalizeFailed));
}

#[test]
fn a_handle_that_the_builder_does_not_know_ends_the_session() {
    let mut session = after_response(200).step(Event::ProverClosed {
        sent_transcript: sent_transcript(),
        received_transcript: received_transcript(),
    });
    while let Action::Commit(_) = session.pending() {
        session = session.step(Event::Commit(CommitOutcome::Accepted(7)));
    }
    session = session.step(Event::SessionFinalized);
    session = session.step(Event::Assembly(AssemblyOutcome::Revealed));
    session = session.step(Event::Assembly(AssemblyOutcome::Revealed));
    session = session.step(Event::Assembly(AssemblyOutcome::UnknownHandle));
    let error = SessionError::Assembly(AssemblyError::UnknownHandle {
        direction: Direction::Received,
        position: 2,
    });
    assert_eq!(session.phase(), Phase::Failed);
    assert_eq!(session.pending(), Action::Abort(error));
    session = session.step(Event::Assembly(AssemblyOutcome::Revealed));
    session = session.step(Event::Assembly(AssemblyOutcome::Built));
    assert_eq!(session.phase(), Phase::Failed);
    assert_eq!(session.pending(), Action::Abort(error));
}

#[test]
fn a_private_value_without_bytes_ends_the_session() {
    let mut session: Session<u32> = Session::new(PrivacySettings::default(), true);
    session = session.step(Event::ProverReady);
    session = session.step(Event::RequestBuilt { headers: headers(&[("authorization", "")]) });
    assert_eq!(session.sent_private_data(), &vec![Vec::<u8>::new()]);
    session = session.step(Event::ResponseReceived { status: 200, headers: HeaderMap::new() });
    session = session.step(Event::ProverClosed {
        sent_transcript: sent_transcript(),
        received_transcript: received_transcript(),
    });
    assert_eq!(session.pending(), Action::Abort(SessionError::EmptyPrivateValue));
    assert_eq!(SessionError::EmptyPrivateValue.stage(), FailedStage::RangeFinding);
}

#[test]
fn failures_name_their_stage_and_cause() {
    assert_eq!(SessionError::BadStatus(500).stage(), FailedStage::Exchange);
    assert_eq!(SessionError::BadStatus(500).message(), "Request failed with status code");
    assert_eq!(SessionError::FinalizeFailed.stage(), FailedStage::Finalize);
    assert_eq!(SessionError::FinalizeFailed.message(), "Error finalizing notarization");
    assert_eq!(
        SessionError::Assembly(AssemblyError::BuildFailed).stage(),
        FailedStage::ProofBuild
    );
    assert_eq!(
        SessionError::Assembly(AssemblyError::BuildFailed).message(),
        "Error building the proof"
    );
    assert_eq!(SessionError::Commit(CommitError::Incomplete).message(), "Error committing a public range");
    assert_eq!(SessionError::UnexpectedEvent.stage(), FailedStage::Sequencing);
    assert_eq!(SessionError::UnexpectedEvent.message(), "Error sequencing the session");
    assert_eq!(
        SessionError::EmptyPrivateValue.message(),
        "Error finding ranges: a private value is empty"
    );
}

#[test]
fn only_what_is_public_is_committed_and_revealed() {
    let transcript: &[u8] = b"Authorization: Bearer abc123\r\nContent-Length: 5\r\n\r\nhello";
    let privacy = PrivacySettings {
        request_topics_to_censor: &["x-token"],
        response_topics_to_censor: &[],
    };
    let mut session: Session<u32> = Session::new(privacy, true);
    session = session.step(Event::ProverReady);
    session = session.step(Event::RequestBuilt { headers: headers(&[("x-token", "abc123")]) });
    session = session.step(Event::ResponseReceived { status: 200, headers: HeaderMap::new() });
    session = session.step(Event::ProverClosed {
        sent_transcript: transcript.to_vec(),
        received_transcript: Vec::new(),
    });

    let mut committed = Vec::new();
    while let Action::Commit(request) = session.pending() {
        committed.push(request);
        session = session.step(Event::Commit(CommitOutcome::Accepted(committed.len() as u32)));
    }
    assert_eq!(
        committed,
        vec![
            CommitRequest { direction: Direction::Sent, start: 0, end: 22 },
            CommitRequest { direction: Direction::Sent, start: 28, end: 56 },
        ]
    );
    for request in &committed {
        assert!(request.end <= 22 || request.start >= 28);
    }

    session = session.step(Event::SessionFinalized);
    let mut revealed = Vec::new();
    while let Action::Reveal(handle) = session.pending() {
        revealed.push(handle);
        session = session.step(Event::Assembly(AssemblyOutcome::Revealed));
    }
    assert_eq!(
        revealed,
        vec![
            CommitmentHandle { direction: Direction::Sent, id: 1 },
            CommitmentHandle { direction: Direction::Sent, id: 2 },
        ]
    );
    session = session.step(Event::Assembly(AssemblyOutcome::Built));
    assert_eq!(session.phase(), Phase::Finalized);
}
