use tlsn_langchain::assembler::{AssemblerAction, AssemblyError, AssemblyOutcome, ProofAssembler};
use tlsn_langchain::commitment::{CommitmentHandle, Direction};

fn sent(id: u32) -> CommitmentHandle<u32> {
    CommitmentHandle { direction: Direction::Sent, id }
}

fn received(id: u32) -> CommitmentHandle<u32> {
    CommitmentHandle { direction: Direction::Received, id }
}

#[test]
fn reveals_sent_handles_first_then_builds() {
    let mut assembler = ProofAssembler::new(vec![sent(4), sent(6)], vec![received(5)]);
    assert_eq!(assembler.pending(), AssemblerAction::Reveal(sent(4)));
    assembler = assembler.record(AssemblyOutcome::Revealed);
    assert_eq!(assembler.pending(), AssemblerAction::Reveal(sent(6)));
    assembler = assembler.record(AssemblyOutcome::Revealed);
    assert_eq!(assembler.pending(), AssemblerAction::Reveal(received(5)));
    assert!(!assembler.is_built());
    assembler = assembler.record(AssemblyOutcome::Revealed);
    assert_eq!(assembler.pending(), AssemblerAction::Build);
    assert!(!assembler.is_built());
    assembler = assembler.record(AssemblyOutcome::Built);
    assert_eq!(assembler.pending(), AssemblerAction::Done);
    assert!(assembler.is_built());
    assembler = assembler.record(AssemblyOutcome::Revealed);
    assert_eq!(assembler.pending(), AssemblerAction::Done);
    assert!(assembler.is_built());
}

#[test]
fn an_unknown_handle_is_fatal() {
    let mut assembler = ProofAssembler::new(vec![sent(4)], vec![received(900), received(5)]);
    assembler = assembler.record(AssemblyOutcome::Revealed);
    assembler = assembler.record(AssemblyOutcome::UnknownHandle);
    let unknown = AssemblyError::UnknownHandle { direction: Direction::Received, position: 1 };
    assert_eq!(assembler.pending(), AssemblerAction::Abort(unknown));
    assembler = assembler.record(AssemblyOutcome::Revealed);
    assembler = assembler.record(AssemblyOutcome::Revealed);
    assembler = assembler.record(AssemblyOutcome::Built);
    assert_eq!(assembler.pending(), AssemblerAction::Abort(unknown));
    assert!(!assembler.is_built());
}

#[test]
fn a_failed_build_is_fatal() {
    let mut assembler: ProofAssembler<u32> = ProofAssembler::new(vec![], vec![]);
    assert_eq!(assembler.pending(), AssemblerAction::Build);
    assembler = assembler.record(AssemblyOutcome::BuildFailed);
    assert_eq!(assembler.pending(), AssemblerAction::Abort(AssemblyError::BuildFailed));
    assembler = assembler.record(AssemblyOutcome::Built);
    assert!(!assembler.is_built());
}

#[test]
fn a_proof_is_not_built_before_every_handle_is_revealed() {
    let mut assembler = ProofAssembler::new(vec![sent(1)], vec![received(2)]);
    assembler = assembler.record(AssemblyOutcome::Revealed);
    assembler = assembler.record(AssemblyOutcome::Built);
    assert_eq!(assembler.pending(), AssemblerAction::Abort(AssemblyError::Unrequested));
    assert!(!assembler.is_built());
}

#[test]
fn a_reveal_that_nothing_asked_for_is_fatal() {
    let mut assembler = ProofAssembler::new(vec![sent(1)], vec![]);
    assembler = assembler.record(AssemblyOutcome::Revealed);
    assembler = assembler.record(AssemblyOutcome::Revealed);
    assert_eq!(assembler.pending(), AssemblerAction::Abort(AssemblyError::Unrequested));
}
