//! Fast-forward recovery: a lagging replica rebuilds the committed state
//! from a peer's snapshot and restarts at the following round.

use bft_core::block_store::{BlockStore, fast_forward_sync};
use bft_core::round_manager::{
    ProposalGenerator, ProposerElection, RecoveryManager, RoundManager,
};
use bft_core::round_state::RoundState;
use bft_core::safety::{ConsensusState, SafetyRules};
use bft_core::types::{
    Block, BlockInfo, ConsensusError, EpochState, ProposalMsg, QuorumCert, SyncInfo,
    ValidatorInfo, ValidatorVerifier, VoteData,
};

fn verifier4() -> ValidatorVerifier {
    let vals = vec![
        ValidatorInfo { author: 0, voting_power: 1 },
        ValidatorInfo { author: 1, voting_power: 1 },
        ValidatorInfo { author: 2, voting_power: 1 },
        ValidatorInfo { author: 3, voting_power: 1 },
    ];
    ValidatorVerifier::new(vals).unwrap()
}

fn info(id: u64, round: u64) -> BlockInfo {
    BlockInfo { id, epoch: 1, round, timestamp_usecs: round }
}

fn qc(proposed: BlockInfo, parent: BlockInfo, commit: Option<BlockInfo>) -> QuorumCert {
    QuorumCert {
        vote_data: VoteData { proposed, parent },
        commit_info: commit,
        signers: vec![0, 1, 2],
    }
}

fn block(id: u64, round: u64, cert: QuorumCert) -> Block {
    Block {
        id,
        epoch: 1,
        round,
        timestamp_usecs: round,
        quorum_cert: cert,
        author: Some(1),
        payload: Vec::new(),
    }
}

/// The committed chain b41 <- c42 <- d43 <- e44 with a certificate over e44
/// committing c42, and the blocks a retriever would return, child first.
fn remote_state() -> (QuorumCert, Vec<Block>) {
    let c42 = block(42, 42, qc(info(41, 41), info(40, 40), None));
    let d43 = block(43, 43, qc(info(42, 42), info(41, 41), None));
    let e44 = block(44, 44, qc(info(43, 43), info(42, 42), None));
    let commit_qc = qc(info(44, 44), info(43, 43), Some(info(42, 42)));
    (commit_qc, vec![e44, d43, c42])
}

#[test]
fn fast_forward_recovers_the_committed_block() {
    let (commit_qc, retrieved) = remote_state();
    let rd = fast_forward_sync(&commit_qc, &retrieved).unwrap();
    assert_eq!(rd.root_block.id, 42);
    assert_eq!(rd.root_block.round, 42);
    assert_eq!(rd.epoch, 1);
    // The root's certificate is its child's, which certifies it.
    assert_eq!(rd.root_qc.vote_data.proposed.id, 42);
    // The suffix above the root comes back parent first, ready to replay.
    assert_eq!(rd.suffix.len(), 2);
    assert_eq!(rd.suffix[0].id, 43);
    assert_eq!(rd.suffix[1].id, 44);
}

#[test]
fn recovery_manager_accepts_only_fresh_snapshots() {
    let (commit_qc, retrieved) = remote_state();
    let sync_info = SyncInfo {
        highest_quorum_cert: commit_qc.clone(),
        highest_commit_cert: commit_qc.clone(),
        highest_timeout_cert: None,
    };
    let proposal = ProposalMsg {
        proposal: block(45, 45, qc(info(44, 44), info(43, 43), None)),
        sync_info,
    };

    // A replica committed to round 10 recovers from the round-42 commit.
    let mut rm = RecoveryManager::new(EpochState { epoch: 1, verifier: verifier4() }, 10);
    let rd = rm.process_proposal_msg(&proposal, &retrieved).unwrap();
    assert_eq!(rd.root_block.id, 42);

    // A replica already past the snapshot refuses it.
    let mut rm = RecoveryManager::new(EpochState { epoch: 1, verifier: verifier4() }, 50);
    assert!(matches!(
        rm.process_proposal_msg(&proposal, &retrieved),
        Err(ConsensusError::StaleSyncInfo)
    ));

    // A snapshot from another epoch is discarded.
    let mut rm = RecoveryManager::new(EpochState { epoch: 2, verifier: verifier4() }, 10);
    assert!(matches!(
        rm.process_vote(
            &bft_core::types::VoteMsg {
                vote: bft_core::types::Vote {
                    author: 0,
                    vote_data: VoteData { proposed: info(44, 44), parent: info(43, 43) },
                    commit_info: None,
                    timeout_signature: None,
                },
                sync_info: SyncInfo {
                    highest_quorum_cert: commit_qc.clone(),
                    highest_commit_cert: commit_qc.clone(),
                    highest_timeout_cert: None,
                },
            },
            &retrieved
        ),
        Err(ConsensusError::EpochMismatch)
    ));
}

#[test]
fn fast_forward_refuses_broken_chains() {
    let (commit_qc, mut retrieved) = remote_state();
    assert!(matches!(
        fast_forward_sync(&commit_qc, &Vec::new()),
        Err(ConsensusError::MissingBlocks)
    ));
    // A chain that never reaches the committed block is refused.
    retrieved.pop();
    assert!(matches!(
        fast_forward_sync(&commit_qc, &retrieved),
        Err(ConsensusError::MissingBlocks)
    ));
    // A certificate that commits nothing cannot drive recovery.
    let plain = qc(info(44, 44), info(43, 43), None);
    assert!(matches!(
        fast_forward_sync(&plain, &remote_state().1),
        Err(ConsensusError::InvalidSyncInfo)
    ));
}

#[test]
fn recovered_replica_restarts_at_the_next_round() {
    let (commit_qc, retrieved) = remote_state();
    let mut rm = RecoveryManager::new(EpochState { epoch: 1, verifier: verifier4() }, 10);
    let sync_info = SyncInfo {
        highest_quorum_cert: commit_qc.clone(),
        highest_commit_cert: commit_qc,
        highest_timeout_cert: None,
    };
    let proposal = ProposalMsg {
        proposal: block(45, 45, qc(info(44, 44), info(43, 43), None)),
        sync_info,
    };
    let rd = rm.process_proposal_msg(&proposal, &retrieved).unwrap();

    // Rebuild a store from the recovered root, replay the suffix, and
    // start: the new round follows the highest replayed certificate.
    let mut store = BlockStore::new(rd.root_block, rd.root_qc, 0).unwrap();
    for b in rd.suffix {
        store.execute_and_insert_block(b).unwrap();
    }
    let mut manager = RoundManager::new(
        EpochState { epoch: 1, verifier: verifier4() },
        store,
        RoundState::new(10_000_000),
        ProposerElection { proposers: vec![0, 1, 2, 3] },
        ProposalGenerator::new(0, 100),
        SafetyRules::new(0, ConsensusState { epoch: 1, last_voted_round: 0, preferred_round: 0 }),
    );
    // The committed round was 42, certified by the round-43 block's
    // certificate held as the root certificate: the replica opens round 43.
    let event = manager.start(None, 1_000).unwrap();
    assert_eq!(event.round, 43);
    assert_eq!(manager.round_state().current_round, 43);
}
