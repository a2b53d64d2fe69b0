//! End-to-end consensus scenarios over four validators (f = 1).

use bft_core::block_store::BlockStore;
use bft_core::round_manager::{
    Action, ConsensusMsg, ProposalGenerator, ProposerElection, RoundManager, UnverifiedEvent,
    pending_transaction_pointers, wait_before_vote_if_needed,
};
use bft_core::round_state::{NewRoundReason, RoundState};
use bft_core::safety::{ConsensusState, SafetyRules, VoteProposal};
use bft_core::types::{
    Block, BlockInfo, BlockRetrievalRequest, BlockRetrievalStatus, ConsensusError, EpochState,
    ProposalMsg, QuorumCert, SignedTransaction, ValidatorInfo, ValidatorVerifier, VoteData,
    VoteMsg,
};

const GENESIS_ID: u64 = 100;
const NOW: u64 = 1_000_000;

fn make_verifier() -> ValidatorVerifier {
    let vals = vec![
        ValidatorInfo { author: 0, voting_power: 1 },
        ValidatorInfo { author: 1, voting_power: 1 },
        ValidatorInfo { author: 2, voting_power: 1 },
        ValidatorInfo { author: 3, voting_power: 1 },
    ];
    ValidatorVerifier::new(vals).unwrap()
}

fn genesis_info() -> BlockInfo {
    BlockInfo { id: GENESIS_ID, epoch: 1, round: 0, timestamp_usecs: 0 }
}

fn genesis_qc() -> QuorumCert {
    QuorumCert {
        vote_data: VoteData { proposed: genesis_info(), parent: genesis_info() },
        commit_info: None,
        signers: Vec::new(),
    }
}

fn genesis_block() -> Block {
    Block {
        id: GENESIS_ID,
        epoch: 1,
        round: 0,
        timestamp_usecs: 0,
        quorum_cert: genesis_qc(),
        author: None,
        payload: Vec::new(),
    }
}

fn replica(author: u64) -> RoundManager {
    let store = BlockStore::new(genesis_block(), genesis_qc(), 0).unwrap();
    RoundManager::new(
        EpochState { epoch: 1, verifier: make_verifier() },
        store,
        RoundState::new(10_000_000),
        ProposerElection { proposers: vec![0, 1, 2, 3] },
        ProposalGenerator::new(author, 100),
        SafetyRules::new(author, ConsensusState { epoch: 1, last_voted_round: 0, preferred_round: 0 }),
    )
}


fn proposal_actions(rm: &mut RoundManager, p: ProposalMsg, fetched: &Vec<Block>, now: u64) -> Vec<Action> {
    let mut actions = Vec::new();
    rm.process_proposal_msg(p, fetched, now, &mut actions).unwrap();
    actions
}

fn vote_outcome(
    rm: &mut RoundManager,
    vm: &VoteMsg,
    now: u64,
) -> Option<bft_core::round_state::NewRoundEvent> {
    let mut actions = Vec::new();
    rm.process_vote(vm, &Vec::new(), now, &mut actions).unwrap()
}

fn sent_vote(actions: Vec<Action>) -> (VoteMsg, u64) {
    for a in actions {
        if let Action::SendVote(vm, to) = a {
            return (vm, to);
        }
    }
    panic!("no vote was sent");
}

fn broadcast_proposal(actions: Vec<Action>) -> ProposalMsg {
    for a in actions {
        if let Action::BroadcastProposal(p) = a {
            return p;
        }
    }
    panic!("no proposal was broadcast");
}

fn broadcast_vote(actions: Vec<Action>) -> VoteMsg {
    for a in actions {
        if let Action::BroadcastVote(vm) = a {
            return vm;
        }
    }
    panic!("no vote was broadcast");
}

#[test]
fn happy_path_round_advances_on_quorum() {
    let mut r0 = replica(0);
    let mut r1 = replica(1);
    let mut r2 = replica(2);
    let mut r3 = replica(3);
    let none: Vec<Block> = Vec::new();

    let e0 = r0.start(None, NOW).unwrap();
    let e1 = r1.start(None, NOW).unwrap();
    let _ = r2.start(None, NOW).unwrap();
    let _ = r3.start(None, NOW).unwrap();
    assert_eq!(e0.round, 1);
    assert!(matches!(e0.reason, NewRoundReason::QCReady));

    // Replica 1 leads round 1; the others do nothing at round start.
    assert!(r0.process_new_round_event(e0, Vec::new(), NOW).unwrap().is_empty());
    let p1 = broadcast_proposal(r1.process_new_round_event(e1, Vec::new(), NOW).unwrap());
    assert_eq!(p1.proposal.round, 1);

    // The non-leaders vote and send their votes to the leader of round 2.
    let (vm0, to0) = sent_vote(proposal_actions(&mut r0, p1.clone(), &none, NOW));
    let (vm2, _) = sent_vote(proposal_actions(&mut r2, p1.clone(), &none, NOW));
    let (vm3, _) = sent_vote(proposal_actions(&mut r3, p1.clone(), &none, NOW));
    assert_eq!(to0, 2);
    assert_eq!(vm0.vote.vote_data.proposed.id, p1.proposal.id);

    // Two votes are not a quorum of the four validators.
    assert!(vote_outcome(&mut r2, &vm0, NOW).is_none());
    assert!(vote_outcome(&mut r2, &vm3, NOW).is_none());
    // The third vote completes the quorum certificate and opens round 2.
    let e2 = vote_outcome(&mut r2, &vm2, NOW).expect("quorum should open a new round");
    // A late vote for the now-certified block is absorbed without effect.
    assert!(vote_outcome(&mut r2, &vm3, NOW).is_none());
    assert_eq!(e2.round, 2);
    assert!(matches!(e2.reason, NewRoundReason::QCReady));
    assert_eq!(r2.round_state().current_round, 2);

    // The round-2 proposal carries the fresh certificate; processing it
    // brings every replica to round 2.
    let p2 = broadcast_proposal(r2.process_new_round_event(e2, Vec::new(), NOW + 1).unwrap());
    assert_eq!(p2.proposal.round, 2);
    let (w0, to) = sent_vote(proposal_actions(&mut r0, p2.clone(), &none, NOW + 1));
    assert_eq!(to, 3);
    // Replica 1 never stored the round-1 block; it comes from retrieval.
    let fetched = vec![p1.proposal.clone()];
    let (w1, _) = sent_vote(proposal_actions(&mut r1, p2.clone(), &fetched, NOW + 1));
    let (w3, _) = sent_vote(proposal_actions(&mut r3, p2.clone(), &none, NOW + 1));
    assert_eq!(r0.round_state().current_round, 2);
    assert_eq!(r1.round_state().current_round, 2);
    assert_eq!(r3.round_state().current_round, 2);

    // Round 2's votes aggregate at its next leader; round 3 begins and its
    // proposal carries everyone along: all replicas reach round 3.
    let _ = vote_outcome(&mut r3, &w0, NOW + 2);
    let _ = vote_outcome(&mut r3, &w1, NOW + 2);
    let e3 = vote_outcome(&mut r3, &w3, NOW + 2).unwrap();
    assert_eq!(e3.round, 3);
    assert!(matches!(e3.reason, NewRoundReason::QCReady));
    let p3 = broadcast_proposal(r3.process_new_round_event(e3, Vec::new(), NOW + 2).unwrap());
    let _ = proposal_actions(&mut r0, p3.clone(), &none, NOW + 2);
    let _ = proposal_actions(&mut r1, p3.clone(), &none, NOW + 2);
    // The round-2 leader broadcast its block but never stored it.
    let fetched2 = vec![p2.proposal.clone()];
    let _ = proposal_actions(&mut r2, p3, &fetched2, NOW + 2);
    assert_eq!(r0.round_state().current_round, 3);
    assert_eq!(r1.round_state().current_round, 3);
    assert_eq!(r2.round_state().current_round, 3);
    assert_eq!(r3.round_state().current_round, 3);
}

#[test]
fn timeout_certificate_advances_round() {
    let mut r0 = replica(0);
    let mut r1 = replica(1);
    let mut r2 = replica(2);
    let mut r3 = replica(3);
    let none: Vec<Block> = Vec::new();

    let e0 = r0.start(None, NOW).unwrap();
    let e1 = r1.start(None, NOW).unwrap();
    let _ = r2.start(None, NOW).unwrap();
    let _ = r3.start(None, NOW).unwrap();

    // Replica 0 saw the proposal and voted; 2 and 3 never received it.
    let _ = r0.process_new_round_event(e0, Vec::new(), NOW).unwrap();
    let p1 = broadcast_proposal(r1.process_new_round_event(e1, Vec::new(), NOW).unwrap());
    let _ = proposal_actions(&mut r0, p1, &none, NOW);

    // The round timer fires: each replica broadcasts a timeout vote —
    // replica 0 repeats its proposal vote, 2 and 3 vote for the NIL block.
    let tv0 = broadcast_vote(r0.process_local_timeout(1, NOW + 10).unwrap());
    let tv2 = broadcast_vote(r2.process_local_timeout(1, NOW + 10).unwrap());
    let tv3 = broadcast_vote(r3.process_local_timeout(1, NOW + 10).unwrap());
    assert!(tv0.vote.timeout_signature.is_some());
    assert_ne!(tv0.vote.vote_data.proposed.id, tv2.vote.vote_data.proposed.id);
    // The NIL block is deterministic: both replicas voted the same block.
    assert_eq!(tv2.vote.vote_data.proposed.id, tv3.vote.vote_data.proposed.id);

    // A stale timeout for a finished round is refused.
    assert!(matches!(
        r0.process_local_timeout(0, NOW + 10),
        Err(ConsensusError::StaleTimeout)
    ));

    // Two timeout signatures are no certificate; the third forms one.
    assert!(vote_outcome(&mut r1, &tv0, NOW + 20).is_none());
    assert!(vote_outcome(&mut r1, &tv2, NOW + 20).is_none());
    let e2 = vote_outcome(&mut r1, &tv3, NOW + 20)
        .expect("timeout certificate should open a new round");
    assert_eq!(e2.round, 2);
    assert!(matches!(e2.reason, NewRoundReason::Timeout));

    // No replica voted twice in round 1.
    assert_eq!(r0.consensus_state().last_voted_round, 1);
    assert_eq!(r2.consensus_state().last_voted_round, 1);
    assert_eq!(r3.consensus_state().last_voted_round, 1);
}

#[test]
fn safety_rules_refuse_second_vote_in_round() {
    let mut sr = SafetyRules::new(
        7,
        ConsensusState { epoch: 1, last_voted_round: 7, preferred_round: 0 },
    );
    let parent = BlockInfo { id: 50, epoch: 1, round: 6, timestamp_usecs: 10 };
    let conflicting = Block {
        id: 51,
        epoch: 1,
        round: 7,
        timestamp_usecs: 11,
        quorum_cert: QuorumCert {
            vote_data: VoteData { proposed: parent, parent: genesis_info() },
            commit_info: None,
            signers: vec![0, 1, 2],
        },
        author: Some(1),
        payload: Vec::new(),
    };
    let before = sr.consensus_state();
    let r = sr.construct_and_sign_vote(&VoteProposal { block: conflicting, commit_info: None });
    assert_eq!(r, Err(ConsensusError::VoteRoundTooOld));
    assert_eq!(sr.consensus_state(), before);
}

#[test]
fn safety_rules_vote_rounds_strictly_increase() {
    let mut sr = SafetyRules::new(
        0,
        ConsensusState { epoch: 1, last_voted_round: 0, preferred_round: 0 },
    );
    let parent = genesis_info();
    let block_at = |round: u64, id: u64| Block {
        id,
        epoch: 1,
        round,
        timestamp_usecs: 5,
        quorum_cert: QuorumCert {
            vote_data: VoteData { proposed: parent, parent },
            commit_info: None,
            signers: vec![0, 1, 2],
        },
        author: Some(0),
        payload: Vec::new(),
    };
    let v1 = sr
        .construct_and_sign_vote(&VoteProposal { block: block_at(3, 61), commit_info: None })
        .unwrap();
    assert_eq!(v1.vote_data.proposed.round, 3);
    assert_eq!(sr.consensus_state().last_voted_round, 3);
    // The same round again, even for the same block, is vetoed.
    let r = sr.construct_and_sign_vote(&VoteProposal { block: block_at(3, 61), commit_info: None });
    assert_eq!(r, Err(ConsensusError::VoteRoundTooOld));
    // A later round passes, and the counter only ever grows.
    let v2 = sr
        .construct_and_sign_vote(&VoteProposal { block: block_at(4, 62), commit_info: None })
        .unwrap();
    assert!(v2.vote_data.proposed.round > v1.vote_data.proposed.round);
    assert_eq!(sr.consensus_state().last_voted_round, 4);
}

#[test]
fn safety_rules_timeout_counter_is_monotone() {
    let mut sr = SafetyRules::new(
        0,
        ConsensusState { epoch: 1, last_voted_round: 5, preferred_round: 0 },
    );
    let r = sr.sign_timeout(&bft_core::types::Timeout { epoch: 1, round: 4 });
    assert_eq!(r, Err(ConsensusError::TimeoutRoundTooOld));
    assert_eq!(sr.consensus_state().last_voted_round, 5);
    sr.sign_timeout(&bft_core::types::Timeout { epoch: 1, round: 8 }).unwrap();
    assert_eq!(sr.consensus_state().last_voted_round, 8);
    let r = sr.sign_timeout(&bft_core::types::Timeout { epoch: 2, round: 9 });
    assert_eq!(r, Err(ConsensusError::EpochMismatch));
}

#[test]
fn stale_and_misauthored_proposals_are_rejected() {
    let mut r0 = replica(0);
    let mut r1 = replica(1);
    let none: Vec<Block> = Vec::new();
    let e1 = r1.start(None, NOW).unwrap();
    let _ = r0.start(None, NOW).unwrap();
    let mut p1 = broadcast_proposal(r1.process_new_round_event(e1, Vec::new(), NOW).unwrap());

    // Wrong proposer for the round.
    let mut bad = p1.clone();
    bad.proposal.author = Some(3);
    let mut sink = Vec::new();
    assert!(matches!(
        r0.process_proposal_msg(bad, &none, NOW, &mut sink),
        Err(ConsensusError::InvalidProposer)
    ));

    // A proposal from a round already left behind.
    let _ = proposal_actions(&mut r0, p1.clone(), &none, NOW);
    p1.proposal.round = 0;
    p1.proposal.author = Some(0);
    assert!(matches!(
        r0.process_proposal_msg(p1, &none, NOW, &mut sink),
        Err(ConsensusError::StaleProposal)
    ));
}

#[test]
fn proposal_generator_proposes_once_per_round() {
    let mut g = ProposalGenerator::new(1, 10);
    let hqc = genesis_qc();
    let b = g.generate_proposal(1, &hqc, Vec::new(), NOW).unwrap();
    assert_eq!(b.round, 1);
    assert_eq!(b.author, Some(1));
    assert!(b.timestamp_usecs >= NOW);
    let again = g.generate_proposal(1, &hqc, Vec::new(), NOW);
    assert!(matches!(again, Err(ConsensusError::ProposalAlreadyGenerated)));
}

#[test]
fn nil_blocks_are_deterministic() {
    let g2 = ProposalGenerator::new(2, 10);
    let g3 = ProposalGenerator::new(3, 10);
    let n2 = g2.generate_nil_block(5, &genesis_qc()).unwrap();
    let n3 = g3.generate_nil_block(5, &genesis_qc()).unwrap();
    assert_eq!(n2.id, n3.id);
    assert_eq!(n2.author, None);
    assert!(n2.payload.is_empty());
}

#[test]
fn voting_never_runs_ahead_of_the_block_timestamp() {
    assert_eq!(wait_before_vote_if_needed(10, 5, 100), Ok(()));
    assert_eq!(wait_before_vote_if_needed(10, 10, 100), Ok(()));
    assert_eq!(
        wait_before_vote_if_needed(10, 20, 15),
        Err(ConsensusError::MaxWaitExceeded)
    );
    assert_eq!(
        wait_before_vote_if_needed(10, 20, 100),
        Err(ConsensusError::WaitRequired { wait_usecs: 10 })
    );
}

#[test]
fn block_retrieval_returns_the_exact_chain() {
    let mut bs = BlockStore::new(genesis_block(), genesis_qc(), 0).unwrap();
    let b1 = Block {
        id: 101,
        epoch: 1,
        round: 1,
        timestamp_usecs: 1,
        quorum_cert: genesis_qc(),
        author: Some(1),
        payload: Vec::new(),
    };
    let b1_info = BlockInfo { id: 101, epoch: 1, round: 1, timestamp_usecs: 1 };
    let b2 = Block {
        id: 102,
        epoch: 1,
        round: 2,
        timestamp_usecs: 2,
        quorum_cert: QuorumCert {
            vote_data: VoteData { proposed: b1_info, parent: genesis_info() },
            commit_info: None,
            signers: vec![0, 1, 2],
        },
        author: Some(2),
        payload: Vec::new(),
    };
    bs.execute_and_insert_block(b1).unwrap();
    bs.execute_and_insert_block(b2).unwrap();
    let rm = RoundManager::new(
        EpochState { epoch: 1, verifier: make_verifier() },
        bs,
        RoundState::new(10_000_000),
        ProposerElection { proposers: vec![0, 1, 2, 3] },
        ProposalGenerator::new(0, 100),
        SafetyRules::new(0, ConsensusState { epoch: 1, last_voted_round: 0, preferred_round: 0 }),
    );

    // Exactly the requested number, child to parent, starting at the id.
    let r = rm.process_block_retrieval(BlockRetrievalRequest { block_id: 102, num_blocks: 2 });
    assert_eq!(r.status, BlockRetrievalStatus::Succeeded);
    assert_eq!(r.blocks.len(), 2);
    assert_eq!(r.blocks[0].id, 102);
    assert_eq!(r.blocks[1].id, 101);
    assert_eq!(r.blocks[0].quorum_cert.vote_data.proposed.id, r.blocks[1].id);

    // The walk stops at genesis when more is asked for.
    let r = rm.process_block_retrieval(BlockRetrievalRequest { block_id: 102, num_blocks: 5 });
    assert_eq!(r.status, BlockRetrievalStatus::NotEnoughBlocks);
    assert_eq!(r.blocks.len(), 3);
    assert_eq!(r.blocks[2].id, GENESIS_ID);

    // An unknown id returns nothing.
    let r = rm.process_block_retrieval(BlockRetrievalRequest { block_id: 999, num_blocks: 1 });
    assert_eq!(r.status, BlockRetrievalStatus::IdNotFound);
    assert!(r.blocks.is_empty());
}

#[test]
fn commit_prunes_the_block_store_to_the_committed_branch() {
    let mut bs = BlockStore::new(genesis_block(), genesis_qc(), 0).unwrap();
    let mk_info = |id: u64, round: u64| BlockInfo { id, epoch: 1, round, timestamp_usecs: round };
    let mk_block = |id: u64, round: u64, parent: BlockInfo| Block {
        id,
        epoch: 1,
        round,
        timestamp_usecs: round,
        quorum_cert: QuorumCert {
            vote_data: VoteData { proposed: parent, parent: genesis_info() },
            commit_info: None,
            signers: vec![0, 1, 2],
        },
        author: Some(0),
        payload: Vec::new(),
    };
    let b1 = Block { quorum_cert: genesis_qc(), ..mk_block(101, 1, genesis_info()) };
    let b2 = mk_block(102, 2, mk_info(101, 1));
    let b3 = mk_block(103, 3, mk_info(102, 2));
    bs.execute_and_insert_block(b1).unwrap();
    bs.execute_and_insert_block(b2).unwrap();
    bs.execute_and_insert_block(b3).unwrap();

    // A certificate for block 3 committing block 1 moves the root.
    let qc = QuorumCert {
        vote_data: VoteData { proposed: mk_info(103, 3), parent: mk_info(102, 2) },
        commit_info: Some(mk_info(101, 1)),
        signers: vec![0, 1, 2],
    };
    let committed = bs.insert_quorum_cert(&qc, &Vec::new()).unwrap();
    assert_eq!(committed.map(|c| c.id), Some(101));
    assert_eq!(bs.root_id, 101);
    assert!(!bs.has_block(GENESIS_ID));
    assert!(bs.has_block(101) && bs.has_block(102) && bs.has_block(103));
}

#[test]
fn events_verify_under_the_validator_set() {
    let v = make_verifier();
    let mut r1 = replica(1);
    let e1 = r1.start(None, NOW).unwrap();
    let p1 = broadcast_proposal(r1.process_new_round_event(e1, Vec::new(), NOW).unwrap());

    let ev = UnverifiedEvent::from(ConsensusMsg::ProposalMsg(p1.clone())).unwrap();
    assert_eq!(ev.epoch(), 1);
    assert!(ev.verify(&v).is_ok());

    // An author outside the validator set fails verification.
    let mut bad = p1;
    bad.proposal.author = Some(9);
    let ev = UnverifiedEvent::from(ConsensusMsg::ProposalMsg(bad)).unwrap();
    assert!(ev.verify(&v).is_err());
}

#[test]
fn proposer_pull_excludes_uncommitted_ancestry() {
    let mut bs = BlockStore::new(genesis_block(), genesis_qc(), 0).unwrap();
    let pending_txn = SignedTransaction {
        sender: 9,
        sequence_number: 4,
        gas_unit_price: 7,
        expiration_time_secs: 1_000,
        payload_id: 1,
    };
    let b1 = Block {
        id: 101,
        epoch: 1,
        round: 1,
        timestamp_usecs: 1,
        quorum_cert: genesis_qc(),
        author: Some(1),
        payload: vec![pending_txn],
    };
    bs.execute_and_insert_block(b1).unwrap();
    // The pending transaction of the uncommitted round-1 block is excluded
    // from the next pull; the committed root's payload is not.
    let seen = pending_transaction_pointers(&bs);
    assert!(seen.iter().any(|p| p.address == 9 && p.sequence_number == 4));
}

#[test]
fn quorum_power_counts_distinct_validators_once() {
    let v = make_verifier();
    assert!(!v.check_voting_power(&vec![0, 1]));
    assert!(v.check_voting_power(&vec![0, 1, 2]));
    assert!(!v.check_voting_power(&vec![0, 0, 0]));
    assert!(!v.check_voting_power(&vec![7, 8, 9]));
    assert!(v.is_validator(3));
    assert!(!v.is_validator(4));
}
