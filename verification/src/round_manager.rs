//! The round manager: consumes verified consensus events and drives the
//! block store, round state, proposer election, proposal generator and
//! safety rules.
//!
//! The manager is a state machine. Everything a collaborator would be asked
//! over I/O arrives as an argument — the wall clock in microseconds, blocks
//! fetched from a peer, the payload pulled from the mempool — and everything
//! that must leave the replica is returned as [`Action`] values for the
//! caller to perform, in order. A vote's save action always precedes its
//! send action, so persistence happens before transmission.

use vstd::prelude::*;

use crate::block_store::{BlockStore, RecoveryData, fast_forward_sync};
use crate::round_state::{NewRoundEvent, NewRoundReason, RoundState, VoteReceptionResult};
use crate::safety::{ConsensusState, SafetyRules, VoteProposal, signs_vote};
use crate::types::{
    Author, Block, BlockId, BlockInfo, BlockRetrievalRequest, BlockRetrievalResponse,
    BlockRetrievalStatus, ConsensusError, EpochState, ProposalMsg, QuorumCert, Round,
    SignedTransaction, SyncInfo, ValidatorVerifier, Vote, VoteMsg, max64, qc_eq,
};

verus! {

/// A consensus message on the wire.
#[derive(Debug)]
pub enum ConsensusMsg {
    ProposalMsg(ProposalMsg),
    VoteMsg(VoteMsg),
    SyncInfo(SyncInfo),
    BlockRetrievalRequest(BlockRetrievalRequest),
    BlockRetrievalResponse(BlockRetrievalResponse),
}

/// A consensus event before signature verification.
#[derive(Debug)]
pub enum UnverifiedEvent {
    ProposalMsg(ProposalMsg),
    VoteMsg(VoteMsg),
    SyncInfo(SyncInfo),
}

/// A consensus event whose certificates and authorship verified.
#[derive(Debug)]
pub enum VerifiedEvent {
    ProposalMsg(ProposalMsg),
    VoteMsg(VoteMsg),
    SyncInfo(SyncInfo),
}

impl UnverifiedEvent {
    /// The event carried by a consensus message; retrieval messages carry
    /// none.
    pub fn from(value: ConsensusMsg) -> (r: Option<UnverifiedEvent>)
        ensures
            value matches ConsensusMsg::ProposalMsg(m) ==> r == Some(
                UnverifiedEvent::ProposalMsg(m),
            ),
            value matches ConsensusMsg::VoteMsg(m) ==> r == Some(UnverifiedEvent::VoteMsg(m)),
            value matches ConsensusMsg::SyncInfo(m) ==> r == Some(UnverifiedEvent::SyncInfo(m)),
            value matches ConsensusMsg::BlockRetrievalRequest(_) ==> r is None,
            value matches ConsensusMsg::BlockRetrievalResponse(_) ==> r is None,
    {
        match value {
            ConsensusMsg::ProposalMsg(m) => Some(UnverifiedEvent::ProposalMsg(m)),
            ConsensusMsg::VoteMsg(m) => Some(UnverifiedEvent::VoteMsg(m)),
            ConsensusMsg::SyncInfo(m) => Some(UnverifiedEvent::SyncInfo(m)),
            _ => None,
        }
    }

    /// Checks the event under the validator set.
    pub fn verify(self, validator: &ValidatorVerifier) -> (r: Result<
        VerifiedEvent,
        ConsensusError,
    >)
        requires
            validator.wf(),
        ensures
            self matches UnverifiedEvent::ProposalMsg(p) ==> (r is Ok <==> p.spec_verified(
                *validator,
            )) && (r matches Ok(ev) ==> ev == VerifiedEvent::ProposalMsg(p)),
            self matches UnverifiedEvent::VoteMsg(v) ==> (r is Ok <==> v.spec_verified(
                *validator,
            )) && (r matches Ok(ev) ==> ev == VerifiedEvent::VoteMsg(v)),
            self matches UnverifiedEvent::SyncInfo(s) ==> (r is Ok <==> s.spec_verified(
                *validator,
            )) && (r matches Ok(ev) ==> ev == VerifiedEvent::SyncInfo(s)),
    {
        match self {
            UnverifiedEvent::ProposalMsg(p) => {
                if p.verify(validator) {
                    Ok(VerifiedEvent::ProposalMsg(p))
                } else {
                    Err(ConsensusError::VerificationFailed)
                }
            },
            UnverifiedEvent::VoteMsg(v) => {
                if v.verify(validator) {
                    Ok(VerifiedEvent::VoteMsg(v))
                } else {
                    Err(ConsensusError::VerificationFailed)
                }
            },
            UnverifiedEvent::SyncInfo(s) => {
                if s.verify(validator) {
                    Ok(VerifiedEvent::SyncInfo(s))
                } else {
                    Err(ConsensusError::VerificationFailed)
                }
            },
        }
    }

    /// The epoch the event belongs to.
    pub fn epoch(&self) -> (r: u64)
        ensures
            self matches UnverifiedEvent::ProposalMsg(p) ==> r == p.spec_epoch(),
            self matches UnverifiedEvent::VoteMsg(v) ==> r == v.spec_epoch(),
            self matches UnverifiedEvent::SyncInfo(s) ==> r == s.spec_epoch(),
    {
        match self {
            UnverifiedEvent::ProposalMsg(p) => p.epoch(),
            UnverifiedEvent::VoteMsg(v) => v.epoch(),
            UnverifiedEvent::SyncInfo(s) => s.epoch(),
        }
    }
}

/// What the caller must perform on the replica's behalf, in order.
#[derive(Debug)]
pub enum Action {
    BroadcastProposal(ProposalMsg),
    BroadcastVote(VoteMsg),
    /// Send the vote to the given recipient, the next round's leader.
    SendVote(VoteMsg, Author),
    /// Answer a lagging peer with the local snapshot.
    SendSyncInfo(SyncInfo, Author),
    /// Persist the vote durably, before any send that follows it.
    SaveVote(Vote),
    /// A block committed: notify the mempool and the execution engine.
    CommitNotification(BlockInfo),
}

/// Everything a replica needs to vote on a block at once, with no syncing:
/// the block belongs to the current round, no vote went out yet, its
/// timestamp has passed, it inserts freshly over a stored parent, and the
/// safety rules allow the vote.
pub open spec fn spec_votable(m: RoundManager, proposal: Block, now_usecs: u64) -> bool {
    &&& proposal.round == m.round_state.current_round
    &&& m.round_state.vote_sent is None
    &&& proposal.timestamp_usecs <= now_usecs
    &&& !m.block_store.spec_has_block(proposal.id)
    &&& m.block_store.spec_has_block(proposal.spec_parent_id())
    &&& proposal.wf()
    &&& proposal.quorum_cert.certified() == m.block_store.spec_block(
        proposal.spec_parent_id(),
    ).block.spec_info()
    &&& proposal.id != m.block_store.spec_block(m.block_store.root_id).block.spec_parent_id()
    &&& proposal.epoch == m.safety_rules.state.epoch
    &&& proposal.round > m.safety_rules.state.last_voted_round
    &&& proposal.spec_parent_round() >= m.safety_rules.state.preferred_round
}

/// Everything a replica needs to execute and vote on the round's NIL block
/// at a local timeout.
pub open spec fn spec_nil_votable(m: RoundManager, round: Round, now_usecs: u64) -> bool {
    let hqc = m.block_store.highest_quorum_cert;
    let nil_id = spec_block_id_of(hqc.certified().epoch, round, None);
    &&& round == m.round_state.current_round
    &&& m.round_state.vote_sent is None
    &&& hqc.certified().round < round
    &&& hqc.certified().timestamp_usecs <= now_usecs
    &&& !m.block_store.spec_has_block(nil_id)
    &&& m.block_store.spec_has_block(hqc.certified().id)
    &&& m.block_store.spec_block(hqc.certified().id).block.spec_info() == hqc.certified()
    &&& nil_id != m.block_store.spec_block(m.block_store.root_id).block.spec_parent_id()
    &&& hqc.certified().epoch == m.safety_rules.state.epoch
    &&& round > m.safety_rules.state.last_voted_round
    &&& hqc.certified().round >= m.safety_rules.state.preferred_round
}

/// Whether the store's certificates reach strictly further than a peer's
/// snapshot in any of the three dimensions.
pub open spec fn spec_store_has_newer(bs: BlockStore, other: SyncInfo) -> bool {
    ||| bs.highest_quorum_cert.certified().round > other.highest_quorum_cert.certified().round
    ||| crate::block_store::spec_tc_round(bs.highest_timeout_cert) > other.spec_timeout_round()
    ||| bs.highest_commit_cert.spec_commit_round() > other.spec_commit_round()
}

/// Whether a peer's snapshot reaches strictly further than the store's
/// certificates in any of the three dimensions.
pub open spec fn spec_newer_than_store(other: SyncInfo, bs: BlockStore) -> bool {
    ||| other.highest_quorum_cert.certified().round > bs.highest_quorum_cert.certified().round
    ||| other.spec_timeout_round() > crate::block_store::spec_tc_round(bs.highest_timeout_cert)
    ||| other.spec_commit_round() > bs.highest_commit_cert.spec_commit_round()
}

/// Everything a replica needs to take a peer's snapshot in as it stands:
/// it verifies, both certificates' blocks are stored and matching, and no
/// round counter is at its limit.
pub open spec fn spec_syncable(m: RoundManager, si: SyncInfo) -> bool {
    &&& si.spec_verified(m.epoch_state.verifier)
    &&& crate::block_store::spec_cert_insertable(m.block_store, si.highest_commit_cert)
    &&& crate::block_store::spec_cert_insertable(m.block_store, si.highest_quorum_cert)
    &&& max64(
        m.block_store.highest_quorum_cert.certified().round,
        max64(
            si.highest_quorum_cert.certified().round,
            si.highest_commit_cert.certified().round,
        ),
    ) < u64::MAX
    &&& max64(
        crate::block_store::spec_tc_round(m.block_store.highest_timeout_cert),
        si.spec_timeout_round(),
    ) < u64::MAX
}

/// The larger of two rounds.
pub fn max_round(a: Round, b: Round) -> (r: Round)
    ensures
        r == max64(a, b),
{
    if a >= b {
        a
    } else {
        b
    }
}

/// A fresh vote that completes a quorum certificate on the spot: it is for
/// the current round, its block has no certificate yet but is stored and
/// matching, its author has not voted, the voters for its data reach a
/// quorum once it is recorded, any commit it carries is feasible, and no
/// round counter is at its limit.
pub open spec fn spec_fresh_quorum(m: RoundManager, vote: Vote) -> bool {
    &&& vote.spec_round() == m.round_state.current_round
    &&& vote.spec_round() < u64::MAX
    &&& !crate::block_store::spec_certified(m.block_store, vote.vote_data.proposed.id)
    &&& !(exists|i: int|
        0 <= i < m.round_state.pending_votes.votes@.len() && (
        #[trigger] m.round_state.pending_votes.votes@[i]).author == vote.author)
    &&& m.epoch_state.verifier.spec_has_quorum(
        crate::round_state::spec_voters_for(
            m.round_state.pending_votes.votes@.push(vote),
            vote.vote_data,
        ).to_set(),
    )
    &&& m.block_store.spec_has_block(vote.vote_data.proposed.id)
    &&& m.block_store.spec_block(vote.vote_data.proposed.id).block.spec_info()
        == vote.vote_data.proposed
    &&& match vote.commit_info {
        Some(c) => c.round <= m.block_store.spec_block(m.block_store.root_id).block.round || (
        m.block_store.spec_has_block(c.id) && m.block_store.spec_block(c.id).block.spec_info()
            == c),
        None => true,
    }
    &&& m.block_store.highest_quorum_cert.certified().round <= vote.spec_round()
    &&& crate::block_store::spec_tc_round(m.block_store.highest_timeout_cert)
        <= vote.spec_round()
}

/// A fresh timeout vote that completes a timeout certificate on the spot.
pub open spec fn spec_fresh_timeout(m: RoundManager, vote: Vote) -> bool {
    &&& vote.spec_is_timeout()
    &&& vote.spec_round() == m.round_state.current_round
    &&& vote.spec_round() < u64::MAX
    &&& !crate::block_store::spec_certified(m.block_store, vote.vote_data.proposed.id)
    &&& !(exists|i: int|
        0 <= i < m.round_state.pending_votes.votes@.len() && (
        #[trigger] m.round_state.pending_votes.votes@[i]).author == vote.author)
    &&& !m.epoch_state.verifier.spec_has_quorum(
        crate::round_state::spec_voters_for(
            m.round_state.pending_votes.votes@.push(vote),
            vote.vote_data,
        ).to_set(),
    )
    &&& m.epoch_state.verifier.spec_has_quorum(
        crate::round_state::spec_timeout_signers(
            m.round_state.pending_votes.votes@.push(vote),
            vote.spec_round(),
        ).to_set(),
    )
    &&& crate::block_store::spec_tc_round(m.block_store.highest_timeout_cert)
        < vote.spec_round()
    &&& m.block_store.highest_quorum_cert.certified().round < vote.spec_round()
}

/// A fresh vote that completes nothing yet: recorded quietly.
pub open spec fn spec_vote_only_recorded(m: RoundManager, vote: Vote) -> bool {
    &&& vote.spec_round() == m.round_state.current_round
    &&& !crate::block_store::spec_certified(m.block_store, vote.vote_data.proposed.id)
    &&& !(exists|i: int|
        0 <= i < m.round_state.pending_votes.votes@.len() && (
        #[trigger] m.round_state.pending_votes.votes@[i]).author == vote.author)
    &&& !m.epoch_state.verifier.spec_has_quorum(
        crate::round_state::spec_voters_for(
            m.round_state.pending_votes.votes@.push(vote),
            vote.vote_data,
        ).to_set(),
    )
    &&& !m.epoch_state.verifier.spec_has_quorum(
        crate::round_state::spec_timeout_signers(
            m.round_state.pending_votes.votes@.push(vote),
            vote.spec_round(),
        ).to_set(),
    )
}

/// Round-robin proposer election over the epoch's validators.
#[derive(Debug)]
pub struct ProposerElection {
    pub proposers: Vec<Author>,
}

impl ProposerElection {
    pub open spec fn wf(self) -> bool {
        self.proposers@.len() >= 1
    }

    /// The proposer elected for a round.
    pub open spec fn spec_leader(self, round: Round) -> Author {
        self.proposers@[round as int % self.proposers@.len() as int]
    }

    pub fn get_valid_proposer(&self, round: Round) -> (r: Author)
        requires
            self.wf(),
        ensures
            r == self.spec_leader(round),
    {
        self.proposers[(round % (self.proposers.len() as u64)) as usize]
    }

    pub fn is_valid_proposer(&self, author: Author, round: Round) -> (r: bool)
        requires
            self.wf(),
        ensures
            r == (author == self.spec_leader(round)),
    {
        author == self.get_valid_proposer(round)
    }

    /// Whether the block names the proposer elected for its round.
    pub fn is_valid_proposal(&self, block: &Block) -> (r: bool)
        requires
            self.wf(),
        ensures
            r == (block.author == Some(self.spec_leader(block.round))),
    {
        match block.author {
            Some(a) => self.is_valid_proposer(a, block.round),
            None => false,
        }
    }
}

/// The block id minted for a proposal. Stands in for the hash of the
/// block's fields: deterministic, so every replica mints the same id for
/// the same NIL block.
pub open spec fn spec_block_id_of(epoch: u64, round: Round, author: Option<Author>) -> BlockId {
    let tag: int = match author {
        Some(a) => a + 1,
        None => 0,
    };
    ((round * 0x10_0000 + epoch * 0x400 + tag) % 0x1_0000_0000_0000_0000) as u64
}

/// Computes [`spec_block_id_of`].
pub fn block_id_of(epoch: u64, round: Round, author: Option<Author>) -> (r: BlockId)
    ensures
        r == spec_block_id_of(epoch, round, author),
{
    let tag: u128 = match author {
        Some(a) => a as u128 + 1,
        None => 0,
    };
    let wide: u128 = (round as u128) * 0x10_0000 + (epoch as u128) * 0x400 + tag;
    (wide % 0x1_0000_0000_0000_0000) as u64
}

/// Builds proposals on top of the highest quorum certificate, at most one
/// per round.
#[derive(Debug)]
pub struct ProposalGenerator {
    pub author: Author,
    pub max_block_size: usize,
    /// The last round a proposal was generated for; 0 before any.
    pub last_round_generated: Round,
}

impl ProposalGenerator {
    pub fn new(author: Author, max_block_size: usize) -> (r: ProposalGenerator)
        requires
            max_block_size >= 1,
        ensures
            r.author == author,
            r.max_block_size == max_block_size,
            r.last_round_generated == 0,
    {
        ProposalGenerator { author, max_block_size, last_round_generated: 0 }
    }

    /// Builds the block for a round on the given highest certificate, with
    /// the pulled payload truncated to the size bound and the timestamp
    /// strictly past the parent's. At most one proposal per round: a second
    /// call for a round at or below the last generated one fails.
    pub fn generate_proposal(
        &mut self,
        round: Round,
        hqc: &QuorumCert,
        payload: Vec<SignedTransaction>,
        now_usecs: u64,
    ) -> (r: Result<Block, ConsensusError>)
        ensures
            final(self).author == old(self).author,
            final(self).max_block_size == old(self).max_block_size,
            r is Ok <==> old(self).last_round_generated < round && hqc.certified().round < round,
            r is Ok ==> final(self).last_round_generated == round,
            r is Err ==> *final(self) == *old(self),
            r matches Ok(b) ==> {
                &&& b.round == round
                &&& b.epoch == hqc.certified().epoch
                &&& b.author == Some(old(self).author)
                &&& qc_eq(b.quorum_cert, *hqc)
                &&& b.quorum_cert.certified() == hqc.certified()
                &&& b.wf()
                &&& b.payload@.len() <= old(self).max_block_size
                &&& b.payload@ == payload@.take(
                    if payload@.len() <= old(self).max_block_size {
                        payload@.len() as int
                    } else {
                        old(self).max_block_size as int
                    },
                )
                &&& b.timestamp_usecs == (if hqc.certified().timestamp_usecs >= now_usecs {
                    if hqc.certified().timestamp_usecs < u64::MAX {
                        (hqc.certified().timestamp_usecs + 1) as u64
                    } else {
                        u64::MAX
                    }
                } else {
                    now_usecs
                })
            },
            r matches Err(e) ==> (e == ConsensusError::ProposalAlreadyGenerated <==> old(self).last_round_generated >= round),
    {
        if self.last_round_generated >= round {
            return Err(ConsensusError::ProposalAlreadyGenerated);
        }
        if hqc.certified_block().round >= round {
            return Err(ConsensusError::InvalidBlock);
        }
        self.last_round_generated = round;
        let parent = hqc.certified_block();
        let timestamp = if parent.timestamp_usecs >= now_usecs {
            if parent.timestamp_usecs < u64::MAX {
                parent.timestamp_usecs + 1
            } else {
                u64::MAX
            }
        } else {
            now_usecs
        };
        let mut txns = payload;
        let ghost payload0 = txns@;
        proof {
            assert(payload0.take(payload0.len() as int) =~= payload0);
        }
        while txns.len() > self.max_block_size
            invariant
                txns@.len() <= payload0.len(),
                txns@.len() >= self.max_block_size || txns@.len() == payload0.len(),
                txns@ == payload0.take(txns@.len() as int),
            decreases txns@.len(),
        {
            let ghost before = txns@;
            proof {
                assert(before.len() > 0);
            }
            let _ = txns.pop();
            proof {
                assert(txns@ == before.subrange(0, before.len() - 1));
                assert forall|i: int| 0 <= i < txns@.len() implies txns@[i] == payload0[i] by {
                    assert(txns@[i] == before[i]);
                    assert(before[i] == payload0.take(before.len() as int)[i]);
                }
                assert(txns@ =~= payload0.take(txns@.len() as int));
            }
        }
        proof {
            assert(txns@ =~= payload0.take(txns@.len() as int));
        }
        Ok(
            Block {
                id: block_id_of(parent.epoch, round, Some(self.author)),
                epoch: parent.epoch,
                round,
                timestamp_usecs: timestamp,
                quorum_cert: hqc.clone(),
                author: Some(self.author),
                payload: txns,
            },
        )
    }

    /// Builds the deterministic NIL block of a round: no author, empty
    /// payload, the parent's timestamp. Every replica builds the same one.
    pub fn generate_nil_block(&self, round: Round, hqc: &QuorumCert) -> (r: Result<
        Block,
        ConsensusError,
    >)
        ensures
            r is Ok <==> hqc.certified().round < round,
            r matches Ok(b) ==> {
                &&& b.id == spec_block_id_of(hqc.certified().epoch, round, None)
                &&& b.round == round
                &&& b.epoch == hqc.certified().epoch
                &&& b.timestamp_usecs == hqc.certified().timestamp_usecs
                &&& b.author is None
                &&& qc_eq(b.quorum_cert, *hqc)
                &&& b.quorum_cert.certified() == hqc.certified()
                &&& b.wf()
                &&& b.payload@.len() == 0
            },
    {
        if hqc.certified_block().round >= round {
            return Err(ConsensusError::InvalidBlock);
        }
        let parent = hqc.certified_block();
        Ok(
            Block {
                id: block_id_of(parent.epoch, round, None),
                epoch: parent.epoch,
                round,
                timestamp_usecs: parent.timestamp_usecs,
                quorum_cert: hqc.clone(),
                author: None,
                payload: Vec::new(),
            },
        )
    }
}

/// The orchestrator of one replica's consensus rounds.
#[derive(Debug)]
pub struct RoundManager {
    pub epoch_state: EpochState,
    pub block_store: BlockStore,
    pub round_state: RoundState,
    pub proposer_election: ProposerElection,
    pub proposal_generator: ProposalGenerator,
    pub safety_rules: SafetyRules,
}

impl RoundManager {
    pub open spec fn wf(self) -> bool {
        &&& self.epoch_state.wf()
        &&& self.block_store.wf()
        &&& self.round_state.pending_votes.wf()
        &&& self.proposer_election.wf()
    }

    pub fn new(
        epoch_state: EpochState,
        block_store: BlockStore,
        round_state: RoundState,
        proposer_election: ProposerElection,
        proposal_generator: ProposalGenerator,
        safety_rules: SafetyRules,
    ) -> (r: RoundManager)
        requires
            epoch_state.wf(),
            block_store.wf(),
            round_state.pending_votes.wf(),
            proposer_election.wf(),
        ensures
            r.wf(),
            r.epoch_state == epoch_state,
            r.block_store == block_store,
            r.round_state == round_state,
            r.proposer_election == proposer_election,
            r.proposal_generator == proposal_generator,
            r.safety_rules == safety_rules,
    {
        RoundManager {
            epoch_state,
            block_store,
            round_state,
            proposer_election,
            proposal_generator,
            safety_rules,
        }
    }

    /// The round of the store's highest timeout certificate, 0 without one.
    fn block_store_tc_round(&self) -> (r: Round)
        ensures
            r == crate::block_store::spec_tc_round(self.block_store.highest_timeout_cert),
    {
        match &self.block_store.highest_timeout_cert {
            Some(tc) => tc.round,
            None => 0,
        }
    }

    /// Runs the round transition on the certificates known to the store,
    /// updating the safety rules' preferred round first.
    fn process_certificates(&mut self, now_usecs: u64) -> (r: Result<
        Option<NewRoundEvent>,
        ConsensusError,
    >)
        requires
            old(self).wf(),
        ensures
            final(self).wf(),
            final(self).round_state.current_round >= old(self).round_state.current_round,
            r matches Ok(Some(e)) ==> e.round == final(self).round_state.current_round && final(self).round_state.current_round > old(self).round_state.current_round,
            r matches Ok(None) ==> final(self).round_state == old(self).round_state,
            final(self).block_store == old(self).block_store,
            // The transition fails only on a round counter at its limit, and
            // a new round opens exactly when the certificates reach past the
            // current one.
            r is Err <==> max64(
                old(self).block_store.highest_quorum_cert.certified().round,
                crate::block_store::spec_tc_round(old(self).block_store.highest_timeout_cert),
            ) == u64::MAX,
            r matches Ok(o) ==> ((o is Some) <==> max64(
                old(self).block_store.highest_quorum_cert.certified().round,
                crate::block_store::spec_tc_round(old(self).block_store.highest_timeout_cert),
            ) + 1 > old(self).round_state.current_round),
            r matches Ok(Some(e)) ==> e.round == max64(
                old(self).block_store.highest_quorum_cert.certified().round,
                crate::block_store::spec_tc_round(old(self).block_store.highest_timeout_cert),
            ) + 1 && final(self).round_state.vote_sent is None,
            r is Err ==> final(self).round_state == old(self).round_state,
            r matches Err(e) ==> e == ConsensusError::InvalidSyncInfo,
            // The preferred round rises to the highest certificate's parent.
            final(self).safety_rules.state == (ConsensusState {
                preferred_round: max64(
                    old(self).safety_rules.state.preferred_round,
                    old(self).block_store.highest_quorum_cert.parent().round,
                ),
                ..old(self).safety_rules.state
            }),
            r is Ok ==> final(self).round_state.current_round >= max64(
                old(self).block_store.highest_quorum_cert.certified().round,
                crate::block_store::spec_tc_round(old(self).block_store.highest_timeout_cert),
            ) + 1,
            r matches Ok(Some(e)) ==> e.reason == (if crate::block_store::spec_tc_round(
                old(self).block_store.highest_timeout_cert,
            ) > old(self).block_store.highest_quorum_cert.certified().round {
                NewRoundReason::Timeout
            } else {
                NewRoundReason::QCReady
            }),
            final(self).proposer_election == old(self).proposer_election,
            final(self).proposal_generator == old(self).proposal_generator,
            final(self).epoch_state == old(self).epoch_state,
            final(self).safety_rules.author == old(self).safety_rules.author,
    {
        let sync_info = self.block_store.sync_info();
        self.safety_rules.update(&sync_info.highest_quorum_cert);
        if sync_info.highest_round() == u64::MAX {
            return Err(ConsensusError::InvalidSyncInfo);
        }
        Ok(self.round_state.process_certificates(&sync_info, now_usecs))
    }

    /// Starts the manager from the stored certificates, restoring the last
    /// sent vote. Fails if the certificates do not open a round.
    pub fn start(&mut self, last_vote_sent: Option<Vote>, now_usecs: u64) -> (r: Result<
        NewRoundEvent,
        ConsensusError,
    >)
        requires
            old(self).wf(),
        ensures
            final(self).wf(),
            final(self).round_state.current_round >= old(self).round_state.current_round,
            r matches Ok(e) ==> e.round == final(self).round_state.current_round,
            // Starting succeeds exactly when the stored certificates open a
            // round, and then the given last vote is restored.
            r is Ok <==> max64(
                old(self).block_store.highest_quorum_cert.certified().round,
                crate::block_store::spec_tc_round(old(self).block_store.highest_timeout_cert),
            ) < u64::MAX && max64(
                old(self).block_store.highest_quorum_cert.certified().round,
                crate::block_store::spec_tc_round(old(self).block_store.highest_timeout_cert),
            ) + 1 > old(self).round_state.current_round,
            r is Ok ==> final(self).round_state.vote_sent == last_vote_sent,
            // The opened round is one past the highest certified or
            // timed-out round.
            r is Ok ==> final(self).round_state.current_round == max64(
                old(self).block_store.highest_quorum_cert.certified().round,
                crate::block_store::spec_tc_round(old(self).block_store.highest_timeout_cert),
            ) + 1,
    {
        let event = match self.process_certificates(now_usecs) {
            Ok(Some(e)) => e,
            Ok(None) => {
                return Err(ConsensusError::NoNewRound);
            },
            Err(e) => {
                return Err(e);
            },
        };
        if let Some(vote) = last_vote_sent {
            self.round_state.record_vote(vote);
        }
        Ok(event)
    }

    /// Leader work at the start of a round: if this replica is the round's
    /// proposer, build and sign a proposal over the pulled payload and
    /// broadcast it. A replica that is not the leader does nothing.
    pub fn process_new_round_event(
        &mut self,
        new_round_event: NewRoundEvent,
        payload: Vec<SignedTransaction>,
        now_usecs: u64,
    ) -> (r: Result<Vec<Action>, ConsensusError>)
        requires
            old(self).wf(),
        ensures
            final(self).wf(),
            final(self).round_state.current_round == old(self).round_state.current_round,
            old(self).proposal_generator.author != old(self).proposer_election.spec_leader(
                new_round_event.round,
            ) ==> (r matches Ok(a) && a@.len() == 0 && *final(self) == *old(self)),
            r matches Ok(a) ==> (a@.len() > 0 ==> (a@.len() == 1 && (a@[0] matches
                Action::BroadcastProposal(p) && p.proposal.round == new_round_event.round
                && p.proposal.author == Some(old(self).proposal_generator.author)
                && p.proposal.quorum_cert.certified() == old(self).block_store.highest_quorum_cert.certified() && qc_eq(
                p.sync_info.highest_quorum_cert,
                old(self).block_store.highest_quorum_cert,
            )))),
            // The leader's proposal is owed exactly when the round is fresh
            // to the generator, justified by the highest certificate, and
            // signable.
            old(self).proposal_generator.author == old(self).proposer_election.spec_leader(
                new_round_event.round,
            ) ==> (r is Ok <==> old(self).proposal_generator.last_round_generated
                < new_round_event.round && old(self).block_store.highest_quorum_cert.certified().round < new_round_event.round && old(self).block_store.highest_quorum_cert.certified().epoch == old(self).safety_rules.state.epoch && old(self).block_store.highest_quorum_cert.certified().round >= old(self).safety_rules.state.preferred_round),
            old(self).proposal_generator.author == old(self).proposer_election.spec_leader(
                new_round_event.round,
            ) ==> (r matches Ok(a) ==> a@.len() == 1),
    {
        if !self.proposer_election.is_valid_proposer(
            self.proposal_generator.author,
            new_round_event.round,
        ) {
            return Ok(Vec::new());
        }
        let msg = match self.generate_proposal(new_round_event, payload, now_usecs) {
            Ok(m) => m,
            Err(e) => {
                return Err(e);
            },
        };
        let mut actions: Vec<Action> = Vec::new();
        actions.push(Action::BroadcastProposal(msg));
        Ok(actions)
    }

    /// Builds and signs this round's proposal over the highest quorum
    /// certificate. The generator enforces at most one proposal per round;
    /// the safety rules check the parent against the preferred round.
    fn generate_proposal(
        &mut self,
        new_round_event: NewRoundEvent,
        payload: Vec<SignedTransaction>,
        now_usecs: u64,
    ) -> (r: Result<ProposalMsg, ConsensusError>)
        requires
            old(self).wf(),
        ensures
            final(self).wf(),
            final(self).round_state == old(self).round_state,
            r matches Ok(m) ==> m.proposal.round == new_round_event.round && m.proposal.author
                == Some(old(self).proposal_generator.author) && m.proposal.wf()
                && m.proposal.quorum_cert.certified() == old(self).block_store.highest_quorum_cert.certified() && qc_eq(
                m.sync_info.highest_quorum_cert,
                old(self).block_store.highest_quorum_cert,
            ),
            // The proposal is owed exactly when the round was not proposed
            // yet, the highest certificate justifies it, and the safety
            // rules sign it.
            r is Ok <==> old(self).proposal_generator.last_round_generated < new_round_event.round
                && old(self).block_store.highest_quorum_cert.certified().round
                < new_round_event.round && old(self).block_store.highest_quorum_cert.certified().epoch == old(self).safety_rules.state.epoch && old(self).block_store.highest_quorum_cert.certified().round >= old(self).safety_rules.state.preferred_round,
    {
        let hqc = self.block_store.highest_quorum_cert.clone();
        let proposal = match self.proposal_generator.generate_proposal(
            new_round_event.round,
            &hqc,
            payload,
            now_usecs,
        ) {
            Ok(b) => b,
            Err(e) => {
                return Err(e);
            },
        };
        let signed_proposal = match self.safety_rules.sign_proposal(proposal) {
            Ok(b) => b,
            Err(e) => {
                return Err(e);
            },
        };
        Ok(ProposalMsg { proposal: signed_proposal, sync_info: self.block_store.sync_info() })
    }

    /// Brings the replica up to a peer's progress.
    ///
    /// If the local snapshot is ahead and `help_remote` is set, the local
    /// snapshot is sent back to the peer. If the peer's snapshot is ahead,
    /// it is verified under the epoch's validator set, its certificates are
    /// brought into the store — connecting missing ancestors from
    /// `retrieved` — and the round transition runs. Retrieval failure
    /// surfaces as an error without touching the round state.
    pub fn sync_up(
        &mut self,
        sync_info: &SyncInfo,
        author: Author,
        help_remote: bool,
        retrieved: &Vec<Block>,
        now_usecs: u64,
        actions: &mut Vec<Action>,
    ) -> (r: Result<Option<NewRoundEvent>, ConsensusError>)
        requires
            old(self).wf(),
        ensures
            final(self).wf(),
            final(self).round_state.current_round >= old(self).round_state.current_round,
            r matches Ok(Some(e)) ==> e.round == final(self).round_state.current_round && e.round
                > old(self).round_state.current_round,
            // Actions only accumulate: whatever happened before an error is
            // still handed to the caller to perform.
            final(actions)@.len() >= old(actions)@.len() && (forall|k: int|
                0 <= k < old(actions)@.len() ==> final(actions)@[k] == old(actions)@[k]),
            // A lagging peer is answered exactly when asked to.
            (help_remote && spec_store_has_newer(old(self).block_store, *sync_info)) ==> (final(actions)@.len() > old(actions)@.len() && (final(actions)@[old(actions)@.len() as int] matches
                Action::SendSyncInfo(_, a) && a == author)),
            // When the peer brings nothing newer there is nothing to sync.
            !spec_newer_than_store(*sync_info, old(self).block_store) ==> (r matches Ok(e)
                && e is None && *final(self) == *old(self)),
            !spec_store_has_newer(old(self).block_store, *sync_info) && !spec_newer_than_store(
                *sync_info,
                old(self).block_store,
            ) ==> final(actions)@ == old(actions)@,
            // A peer ahead of us must verify, exactly; a verification
            // failure changes nothing at all.
            r == Err::<Option<NewRoundEvent>, ConsensusError>(ConsensusError::VerificationFailed)
                <==> spec_newer_than_store(*sync_info, old(self).block_store)
                && !sync_info.spec_verified(old(self).epoch_state.verifier),
            r == Err::<Option<NewRoundEvent>, ConsensusError>(ConsensusError::VerificationFailed)
                ==> *final(self) == *old(self),
            // Errors never touch the round state, and never move the
            // committed root: no partial chain is ever committed.
            r is Err ==> final(self).round_state == old(self).round_state && final(self).block_store.root_id == old(self).block_store.root_id,
            // Nothing is ever sent back to the peer except on the help path.
            !(help_remote && spec_store_has_newer(old(self).block_store, *sync_info))
                ==> forall|k: int|
                old(actions)@.len() <= k < final(actions)@.len() ==> !((
                #[trigger] final(actions)@[k]) matches Action::SendSyncInfo(_, _)),
            // Catching up lands the replica past the peer's highest round.
            r is Ok && spec_newer_than_store(*sync_info, old(self).block_store) ==> final(self).round_state.current_round > sync_info.spec_highest_round(),
            // Syncing is owed for a snapshot the store can take as it
            // stands.
            spec_syncable(*old(self), *sync_info) ==> r is Ok,
            // After a successful sync the store's certificates dominate the
            // peer's snapshot.
            r is Ok && spec_newer_than_store(*sync_info, old(self).block_store) ==> (final(self).block_store.highest_quorum_cert.certified().round
                >= sync_info.highest_quorum_cert.certified().round
                && crate::block_store::spec_tc_round(final(self).block_store.highest_timeout_cert)
                >= sync_info.spec_timeout_round()
                && final(self).block_store.highest_commit_cert.spec_commit_round()
                >= sync_info.spec_commit_round()),
            r matches Err(e) ==> e == ConsensusError::VerificationFailed || e
                == ConsensusError::MissingBlocks || e == ConsensusError::InvalidBlock || e
                == ConsensusError::BlockNotFound || e == ConsensusError::InvalidSyncInfo,
            final(self).proposer_election == old(self).proposer_election,
            final(self).proposal_generator == old(self).proposal_generator,
            final(self).epoch_state == old(self).epoch_state,
            final(self).safety_rules.author == old(self).safety_rules.author,
    {
        let local_sync_info = self.block_store.sync_info();
        proof {
            assert(sync_info.spec_has_newer_certificates(local_sync_info)
                == spec_newer_than_store(*sync_info, self.block_store));
            assert(local_sync_info.spec_has_newer_certificates(*sync_info)
                == spec_store_has_newer(self.block_store, *sync_info));
        }
        if help_remote && local_sync_info.has_newer_certificates(sync_info) {
            actions.push(Action::SendSyncInfo(local_sync_info.clone(), author));
        }
        let mut new_round: Option<NewRoundEvent> = None;
        if sync_info.has_newer_certificates(&local_sync_info) {
            if !sync_info.verify(&self.epoch_state.verifier) {
                return Err(ConsensusError::VerificationFailed);
            }
            // A snapshot that would drive a round counter to its limit is
            // refused before anything is taken in, so that the round
            // transition after intake can never fail -- and in particular
            // never fails after a commit.
            let qc_bound = max_round(
                self.block_store.highest_quorum_cert.certified_block().round,
                max_round(
                    sync_info.highest_quorum_cert.certified_block().round,
                    sync_info.highest_commit_cert.certified_block().round,
                ),
            );
            let tc_bound = max_round(self.block_store_tc_round(), sync_info.timeout_round());
            if qc_bound == u64::MAX || tc_bound == u64::MAX {
                return Err(ConsensusError::InvalidSyncInfo);
            }
            let committed = match self.block_store.add_certs(sync_info, retrieved) {
                Ok(c) => c,
                Err(e) => {
                    return Err(e);
                },
            };
            if let Some(c) = committed {
                actions.push(Action::CommitNotification(c));
            }
            new_round = match self.process_certificates(now_usecs) {
                Ok(e) => e,
                Err(e) => {
                    return Err(e);
                },
            };
        }
        Ok(new_round)
    }

    /// Handles a peer's standalone sync snapshot; never answers it to avoid
    /// ping-pong between two replicas moving together.
    pub fn process_sync_info_msg(
        &mut self,
        sync_info: &SyncInfo,
        peer: Author,
        retrieved: &Vec<Block>,
        now_usecs: u64,
        actions: &mut Vec<Action>,
    ) -> (r: Result<Option<NewRoundEvent>, ConsensusError>)
        requires
            old(self).wf(),
        ensures
            final(self).wf(),
            final(self).round_state.current_round >= old(self).round_state.current_round,
            r matches Ok(Some(e)) ==> e.round == final(self).round_state.current_round,
            forall|k: int|
                0 <= k < old(actions)@.len() ==> final(actions)@[k] == old(actions)@[k],
            final(actions)@.len() >= old(actions)@.len(),
            !spec_store_has_newer(old(self).block_store, *sync_info) && !spec_newer_than_store(
                *sync_info,
                old(self).block_store,
            ) ==> (r matches Ok(e) && e is None && *final(self) == *old(self)),
            r is Err ==> final(self).round_state == old(self).round_state,
            // The peer is never answered: this path breaks the ping-pong of
            // two replicas moving forward together.
            forall|k: int|
                old(actions)@.len() <= k < final(actions)@.len() ==> !((
                #[trigger] final(actions)@[k]) matches Action::SendSyncInfo(_, _)),
            spec_syncable(*old(self), *sync_info) ==> r is Ok,
            r == Err::<Option<NewRoundEvent>, ConsensusError>(ConsensusError::VerificationFailed)
                ==> *final(self) == *old(self),
    {
        self.sync_up(sync_info, peer, false, retrieved, now_usecs, actions)
    }

    /// Handles a verified proposal: filters stale rounds and wrong
    /// proposers, syncs up to the proposal's snapshot, then executes the
    /// block and votes on it if the safety rules allow, sending the vote to
    /// the next round's leader. The vote is persisted before it is sent.
    pub fn process_proposal_msg(
        &mut self,
        proposal_msg: ProposalMsg,
        retrieved: &Vec<Block>,
        now_usecs: u64,
        actions: &mut Vec<Action>,
    ) -> (r: Result<Option<NewRoundEvent>, ConsensusError>)
        requires
            old(self).wf(),
        ensures
            final(self).wf(),
            final(self).round_state.current_round >= old(self).round_state.current_round,
            forall|k: int|
                0 <= k < old(actions)@.len() ==> final(actions)@[k] == old(actions)@[k],
            final(actions)@.len() >= old(actions)@.len(),
            // A stale round and a wrong proposer are the exact first two
            // refusals, and a round moved by the sync the exact third.
            r == Err::<Option<NewRoundEvent>, ConsensusError>(ConsensusError::StaleProposal)
                <==> proposal_msg.proposal.round < old(self).round_state.current_round,
            r == Err::<Option<NewRoundEvent>, ConsensusError>(ConsensusError::InvalidProposer)
                <==> proposal_msg.proposal.round >= old(self).round_state.current_round
                && proposal_msg.proposal.author != Some(
                old(self).proposer_election.spec_leader(proposal_msg.proposal.round),
            ),
            r == Err::<Option<NewRoundEvent>, ConsensusError>(ConsensusError::ProposalRoundMismatch)
                ==> proposal_msg.proposal.round != final(self).round_state.current_round,
            // On success the vote went out: persisted strictly before it was
            // sent to the next round's leader.
            r is Ok ==> exists|i: int, j: int|
                #![trigger final(actions)@[i], final(actions)@[j]]
                0 <= i < j < final(actions)@.len() && (final(actions)@[i] matches
                    Action::SaveVote(v) && v.spec_round() == proposal_msg.proposal.round) && (
                final(actions)@[j] matches Action::SendVote(vm, to) && vm.vote.spec_round()
                    == proposal_msg.proposal.round && vm.vote == final(self).round_state.vote_sent->0
                    && (proposal_msg.proposal.round < u64::MAX ==> to == old(self).proposer_election.spec_leader((proposal_msg.proposal.round + 1) as u64))),
            // Success is owed when the block is votable as it stands and the
            // snapshot brings nothing newer.
            proposal_msg.proposal.author == Some(
                old(self).proposer_election.spec_leader(proposal_msg.proposal.round),
            ) && !spec_newer_than_store(proposal_msg.sync_info, old(self).block_store)
                && spec_votable(*old(self), proposal_msg.proposal, now_usecs)
                && proposal_msg.proposal.round < u64::MAX ==> r is Ok,
    {
        let proposal_round = proposal_msg.proposal.round;
        let current_round = self.round_state.current_round();
        if proposal_round < current_round {
            return Err(ConsensusError::StaleProposal);
        }
        if !self.proposer_election.is_valid_proposal(&proposal_msg.proposal) {
            return Err(ConsensusError::InvalidProposer);
        }
        let author = match proposal_msg.proposal.author {
            Some(a) => a,
            None => {
                return Err(ConsensusError::InvalidProposer);
            },
        };
        let new_round = match self.sync_up(
            &proposal_msg.sync_info,
            author,
            true,
            retrieved,
            now_usecs,
            actions,
        ) {
            Ok(nr) => nr,
            Err(e) => {
                return Err(e);
            },
        };
        if proposal_round != self.round_state.current_round() {
            return Err(ConsensusError::ProposalRoundMismatch);
        }
        let vote = match self.execute_and_vote(proposal_msg.proposal, now_usecs, actions) {
            Ok(v) => v,
            Err(e) => {
                return Err(e);
            },
        };
        let ghost save_idx = actions@.len() - 1;
        self.round_state.record_vote(vote);
        let recipient = self.proposer_election.get_valid_proposer(
            if proposal_round < u64::MAX {
                proposal_round + 1
            } else {
                proposal_round
            },
        );
        let vote_msg = VoteMsg { vote, sync_info: self.block_store.sync_info() };
        actions.push(Action::SendVote(vote_msg, recipient));
        proof {
            let j = actions@.len() - 1;
            assert(actions@[save_idx] matches Action::SaveVote(v) && v.spec_round()
                == proposal_round);
            assert(self.round_state.vote_sent == Some(vote));
            assert(actions@[j] matches Action::SendVote(vm, to) && vm.vote.spec_round()
                == proposal_round && vm.vote == self.round_state.vote_sent->0 && (proposal_round
                < u64::MAX ==> to == self.proposer_election.spec_leader(
                (proposal_round + 1) as u64,
            )));
            assert(exists|i: int, j2: int|
                #![trigger actions@[i], actions@[j2]]
                0 <= i < j2 < actions@.len() && (actions@[i] matches Action::SaveVote(v)
                    && v.spec_round() == proposal_round) && (actions@[j2] matches
                Action::SendVote(vm, to) && vm.vote.spec_round() == proposal_round && vm.vote
                    == self.round_state.vote_sent->0 && (proposal_round < u64::MAX ==> to
                    == self.proposer_election.spec_leader((proposal_round + 1) as u64))));
        }
        Ok(new_round)
    }

    /// Executes the block, re-checks the round and that no vote was sent
    /// this round, refuses to vote ahead of the block's timestamp, asks the
    /// safety rules to sign the vote — computing the 3-chain commit the vote
    /// would certify — and appends the action that persists the vote.
    fn execute_and_vote(
        &mut self,
        proposed_block: Block,
        now_usecs: u64,
        actions: &mut Vec<Action>,
    ) -> (r: Result<Vote, ConsensusError>)
        requires
            old(self).wf(),
        ensures
            final(self).wf(),
            final(self).round_state == old(self).round_state,
            final(self).proposer_election == old(self).proposer_election,
            final(self).proposal_generator == old(self).proposal_generator,
            final(self).epoch_state == old(self).epoch_state,
            final(self).safety_rules.author == old(self).safety_rules.author,
            crate::safety::counters_step(old(self).safety_rules.state, final(self).safety_rules.state),
            r matches Ok(v) ==> {
                &&& v.spec_round() == proposed_block.round
                &&& v.author == old(self).safety_rules.author
                &&& v.vote_data.proposed == proposed_block.spec_info()
                &&& v.vote_data.parent == proposed_block.quorum_cert.certified()
                &&& proposed_block.round == old(self).round_state.current_round
                &&& old(self).round_state.vote_sent is None
                &&& signs_vote(old(self).safety_rules.state, final(self).safety_rules.state, v)
                &&& final(actions)@.len() == old(actions)@.len() + 1
                &&& final(actions)@.last() == Action::SaveVote(v)
                &&& forall|k: int|
                    0 <= k < old(actions)@.len() ==> final(actions)@[k] == old(actions)@[k]
            },
            r is Err ==> final(actions)@ == old(actions)@,
            // Voting is owed on a votable block, and a voted block is
            // stored.
            spec_votable(*old(self), proposed_block, now_usecs) ==> r is Ok,
            r is Ok ==> final(self).block_store.spec_has_block(proposed_block.id),
            r matches Err(e) ==> (e == ConsensusError::BlockNotFound || e
                == ConsensusError::InvalidBlock || e == ConsensusError::RoundIncorrect || e
                == ConsensusError::AlreadyVoted || e == ConsensusError::MaxWaitExceeded || (e
                matches ConsensusError::WaitRequired { .. }) || e == ConsensusError::EpochMismatch
                || e == ConsensusError::VoteRoundTooOld || e
                == ConsensusError::ParentBehindPreferredRound),
    {
        let block = proposed_block.clone();
        let parent_id = proposed_block.parent_id();
        match self.block_store.execute_and_insert_block(proposed_block) {
            Ok(_) => {},
            Err(e) => {
                return Err(e);
            },
        }
        if block.round != self.round_state.current_round() {
            return Err(ConsensusError::RoundIncorrect);
        }
        if self.round_state.vote_sent().is_some() {
            return Err(ConsensusError::AlreadyVoted);
        }
        match wait_before_vote_if_needed(
            now_usecs,
            block.timestamp_usecs,
            self.round_state.current_round_deadline(),
        ) {
            Ok(()) => {},
            Err(e) => {
                return Err(e);
            },
        }
        // The 3-chain rule: voting for a block whose parent and grandparent
        // sit at the two directly preceding rounds commits the grandparent.
        let parent_round = block.quorum_cert.certified_block().round;
        let grandparent = block.quorum_cert.parent_block();
        let commit_info: Option<BlockInfo> = if parent_round < u64::MAX && block.round
            == parent_round + 1 && grandparent.round < u64::MAX && parent_round
            == grandparent.round + 1 {
            Some(grandparent)
        } else {
            None
        };
        let vote_proposal = VoteProposal { block, commit_info };
        let vote = match self.safety_rules.construct_and_sign_vote(&vote_proposal) {
            Ok(v) => v,
            Err(e) => {
                return Err(e);
            },
        };
        actions.push(Action::SaveVote(vote));
        Ok(vote)
    }

    /// Handles a verified vote: regular votes are accepted only by the
    /// leader of the next round; the replica syncs up to the sender's
    /// snapshot, then aggregates the vote, bringing a fresh quorum or
    /// timeout certificate into the store and running the round transition.
    pub fn process_vote(
        &mut self,
        vote_msg: &VoteMsg,
        retrieved: &Vec<Block>,
        now_usecs: u64,
        actions: &mut Vec<Action>,
    ) -> (r: Result<Option<NewRoundEvent>, ConsensusError>)
        requires
            old(self).wf(),
        ensures
            final(self).wf(),
            final(self).round_state.current_round >= old(self).round_state.current_round,
            r matches Ok(Some(e)) ==> e.round == final(self).round_state.current_round && e.round
                > old(self).round_state.current_round,
            forall|k: int|
                0 <= k < old(actions)@.len() ==> final(actions)@[k] == old(actions)@[k],
            final(actions)@.len() >= old(actions)@.len(),
            // A regular vote is accepted exactly by the next round's leader,
            // and the refusal changes nothing.
            r == Err::<Option<NewRoundEvent>, ConsensusError>(
                ConsensusError::VoteNotForThisReplica,
            ) <==> !vote_msg.vote.spec_is_timeout() && vote_msg.vote.spec_round() < u64::MAX
                && old(self).proposal_generator.author != old(self).proposer_election.spec_leader((vote_msg.vote.spec_round() + 1) as u64),
            r == Err::<Option<NewRoundEvent>, ConsensusError>(
                ConsensusError::VoteNotForThisReplica,
            ) ==> *final(self) == *old(self) && final(actions)@ == old(actions)@,
            // A snapshot verification failure changes nothing: the vote is
            // only aggregated after a successful sync.
            r == Err::<Option<NewRoundEvent>, ConsensusError>(ConsensusError::VerificationFailed)
                ==> *final(self) == *old(self),
            // With nothing to sync, a vote completing a certificate is owed
            // its new round.
            (vote_msg.vote.spec_is_timeout() || old(self).proposal_generator.author == old(self).proposer_election.spec_leader((vote_msg.vote.spec_round() + 1) as u64))
                && !spec_newer_than_store(vote_msg.sync_info, old(self).block_store)
                && spec_fresh_quorum(*old(self), vote_msg.vote) ==> (r matches Ok(Some(e))
                && e.round == vote_msg.vote.spec_round() + 1 && e.reason
                == NewRoundReason::QCReady),
            (vote_msg.vote.spec_is_timeout() || old(self).proposal_generator.author == old(self).proposer_election.spec_leader((vote_msg.vote.spec_round() + 1) as u64))
                && !spec_newer_than_store(vote_msg.sync_info, old(self).block_store)
                && spec_fresh_timeout(*old(self), vote_msg.vote) ==> (r matches Ok(Some(e))
                && e.round == vote_msg.vote.spec_round() + 1 && e.reason
                == NewRoundReason::Timeout),
    {
        if !vote_msg.vote.is_timeout() {
            let vote_round = vote_msg.vote.round();
            let next_round = if vote_round < u64::MAX {
                vote_round + 1
            } else {
                vote_round
            };
            if vote_round < u64::MAX && !self.proposer_election.is_valid_proposer(
                self.proposal_generator.author,
                next_round,
            ) {
                return Err(ConsensusError::VoteNotForThisReplica);
            }
        }
        let synced = match self.sync_up(
            &vote_msg.sync_info,
            vote_msg.vote.author,
            true,
            retrieved,
            now_usecs,
            actions,
        ) {
            Ok(nr) => nr,
            Err(e) => {
                return Err(e);
            },
        };
        match self.add_vote(&vote_msg.vote, retrieved, now_usecs) {
            Ok(Some(e)) => Ok(Some(e)),
            Ok(None) => Ok(synced),
            Err(e) => Err(e),
        }
    }

    /// Aggregates a vote; a completed certificate enters the store and may
    /// open a new round. A vote for a block that already has a certificate
    /// is ignored.
    fn add_vote(&mut self, vote: &Vote, retrieved: &Vec<Block>, now_usecs: u64) -> (r: Result<
        Option<NewRoundEvent>,
        ConsensusError,
    >)
        requires
            old(self).wf(),
        ensures
            final(self).wf(),
            final(self).round_state.current_round >= old(self).round_state.current_round,
            r matches Ok(Some(e)) ==> e.round == final(self).round_state.current_round && e.round
                > old(self).round_state.current_round,
            r matches Ok(None) ==> final(self).round_state.current_round == old(self).round_state.current_round,
            r matches Err(e) ==> e == ConsensusError::MissingBlocks || e
                == ConsensusError::InvalidBlock || e == ConsensusError::BlockNotFound || e
                == ConsensusError::InvalidSyncInfo,
            // A vote for an already-certified block changes nothing.
            crate::block_store::spec_certified(old(self).block_store, vote.vote_data.proposed.id)
                ==> (r matches Ok(None) && *final(self) == *old(self)),
            // A fresh vote that completes a quorum opens the next round.
            spec_fresh_quorum(*old(self), *vote) ==> (r matches Ok(Some(e)) && e.round
                == vote.spec_round() + 1 && e.reason == NewRoundReason::QCReady),
            // A fresh timeout vote that completes a timeout certificate
            // opens the next round by timeout.
            spec_fresh_timeout(*old(self), *vote) ==> (r matches Ok(Some(e)) && e.round
                == vote.spec_round() + 1 && e.reason == NewRoundReason::Timeout),
            // A fresh vote that completes nothing is recorded, and only
            // recorded.
            spec_vote_only_recorded(*old(self), *vote) ==> (r matches Ok(None) && final(self).round_state.pending_votes.votes@ == old(self).round_state.pending_votes.votes@.push(
                *vote,
            ) && final(self).block_store == old(self).block_store && final(self).round_state.current_round == old(self).round_state.current_round),
    {
        let ghost pre = *old(self);
        let block_id = vote.vote_data.proposed.id;
        if self.block_store.get_quorum_cert_for_block(block_id) {
            return Ok(None);
        }
        proof {
            if spec_fresh_quorum(pre, *vote) {
                assert(pre.round_state.pending_votes.votes@.push(*vote).drop_last()
                    =~= pre.round_state.pending_votes.votes@);
            }
            if spec_fresh_timeout(pre, *vote) {
                assert(pre.round_state.pending_votes.votes@.push(*vote).drop_last()
                    =~= pre.round_state.pending_votes.votes@);
            }
        }
        match self.round_state.insert_vote(vote, &self.epoch_state.verifier) {
            VoteReceptionResult::NewQuorumCertificate(qc) => {
                proof {
                    if spec_fresh_quorum(pre, *vote) {
                        assert(self.round_state.pending_votes.votes@ =~= pre.round_state.pending_votes.votes@.push(*vote));
                        assert(crate::block_store::spec_cert_insertable(self.block_store, qc));
                    }
                }
                match self.block_store.insert_quorum_cert(&qc, retrieved) {
                    Ok(_) => {},
                    Err(e) => {
                        return Err(e);
                    },
                }
                proof {
                    if spec_fresh_quorum(pre, *vote) {
                        assert(self.block_store.highest_quorum_cert.certified().round
                            == vote.spec_round());
                        assert(crate::block_store::spec_tc_round(
                            self.block_store.highest_timeout_cert,
                        ) <= vote.spec_round());
                    }
                }
                let out = self.process_certificates(now_usecs);
                proof {
                    if spec_fresh_quorum(pre, *vote) {
                        assert(out is Ok);
                        assert(out matches Ok(o) && o is Some);
                        assert(out matches Ok(Some(e)) && e.round == vote.spec_round() + 1);
                        assert(out matches Ok(Some(e)) && e.reason == NewRoundReason::QCReady);
                    }
                }
                match out {
                    Ok(e) => Ok(e),
                    Err(e) => Err(e),
                }
            },
            VoteReceptionResult::NewTimeoutCertificate(tc) => {
                proof {
                    if spec_fresh_timeout(pre, *vote) {
                        assert(tc.round == vote.spec_round());
                    }
                }
                self.block_store.insert_timeout_certificate(tc);
                proof {
                    if spec_fresh_timeout(pre, *vote) {
                        assert(crate::block_store::spec_tc_round(
                            self.block_store.highest_timeout_cert,
                        ) == vote.spec_round());
                        assert(self.block_store.highest_quorum_cert.certified().round
                            < vote.spec_round());
                    }
                }
                let out = self.process_certificates(now_usecs);
                proof {
                    if spec_fresh_timeout(pre, *vote) {
                        assert(out is Ok);
                        assert(out matches Ok(o) && o is Some);
                        assert(out matches Ok(Some(e)) && e.round == vote.spec_round() + 1);
                        assert(out matches Ok(Some(e)) && e.reason == NewRoundReason::Timeout);
                    }
                }
                match out {
                    Ok(e) => Ok(e),
                    Err(e) => Err(e),
                }
            },
            _ => {
                proof {
                    if spec_fresh_quorum(pre, *vote) {
                        assert(self.round_state.pending_votes.votes@
                            =~= pre.round_state.pending_votes.votes@.push(*vote));
                        assert(false);
                    }
                    if spec_fresh_timeout(pre, *vote) {
                        assert(self.round_state.pending_votes.votes@
                            =~= pre.round_state.pending_votes.votes@.push(*vote));
                        assert(false);
                    }
                }
                Ok(None)
            },
        }
    }

    /// Handles the local round timer: legitimate only for the current
    /// round. The replica repeats its vote of this round, or executes and
    /// votes on the deterministic NIL block, stamps the vote with a timeout
    /// signature, records it and broadcasts it — persisting before the
    /// broadcast.
    pub fn process_local_timeout(&mut self, round: Round, now_usecs: u64) -> (r: Result<
        Vec<Action>,
        ConsensusError,
    >)
        requires
            old(self).wf(),
        ensures
            final(self).wf(),
            final(self).round_state.current_round == old(self).round_state.current_round,
            r is Err && old(self).round_state.current_round != round ==> *final(self) == *old(self),
            round != old(self).round_state.current_round ==> (r matches Err(e) && e
                == ConsensusError::StaleTimeout),
            r matches Ok(a) ==> {
                &&& a@.len() >= 2
                &&& (a@.last() matches Action::BroadcastVote(vm) && vm.vote.spec_round() == round
                    && vm.vote.spec_is_timeout() && final(self).round_state.vote_sent == Some(
                    vm.vote,
                ))
                &&& exists|i: int|
                    #![trigger a@[i]]
                    0 <= i < a@.len() - 1 && (a@[i] matches Action::SaveVote(v)
                        && v.spec_round() == round)
            },
            // A replica that already voted this round repeats that very
            // vote, with a timeout signature added: no second distinct vote
            // for the round ever leaves.
            r matches Ok(a) ==> ((old(self).round_state.vote_sent matches Some(v)
                && v.spec_round() == round) ==> (a@.last() matches Action::BroadcastVote(vm)
                && vm.vote.vote_data == old(self).round_state.vote_sent->0.vote_data
                && vm.vote.author == old(self).round_state.vote_sent->0.author
                && vm.vote.commit_info == old(self).round_state.vote_sent->0.commit_info)),
            // A replica without a vote this round votes for the round's
            // deterministic NIL block on the highest certificate.
            r matches Ok(a) ==> (!(old(self).round_state.vote_sent matches Some(v)
                && v.spec_round() == round) ==> (a@.last() matches Action::BroadcastVote(vm)
                && vm.vote.vote_data.proposed.id == spec_block_id_of(
                old(self).block_store.highest_quorum_cert.certified().epoch,
                round,
                None,
            ) && vm.vote.vote_data.proposed.round == round
                && vm.vote.vote_data.parent == old(self).block_store.highest_quorum_cert.certified())),
            // The timeout vote is owed: a legitimate timeout with a
            // repeatable vote, or with the NIL block executable and
            // signable, succeeds.
            old(self).round_state.vote_sent matches Some(v) && v.spec_round() == round && round
                == old(self).round_state.current_round && old(self).safety_rules.state.epoch
                == v.spec_epoch() && round >= old(self).safety_rules.state.last_voted_round ==> r
                is Ok,
            !(old(self).round_state.vote_sent matches Some(v) && v.spec_round() == round)
                && spec_nil_votable(*old(self), round, now_usecs) ==> r is Ok,
    {
        if !self.round_state.process_local_timeout(round) {
            return Err(ConsensusError::StaleTimeout);
        }
        let mut actions: Vec<Action> = Vec::new();
        let mut timeout_vote: Vote;
        match self.round_state.vote_sent() {
            Some(vote) if vote.round() == round => {
                timeout_vote = vote;
                actions.push(Action::SaveVote(vote));
            },
            _ => {
                // No vote in this round yet: vote for the NIL block.
                let nil_block = match self.proposal_generator.generate_nil_block(
                    round,
                    &self.block_store.highest_quorum_cert,
                ) {
                    Ok(b) => b,
                    Err(e) => {
                        return Err(e);
                    },
                };
                timeout_vote = match self.execute_and_vote(nil_block, now_usecs, &mut actions) {
                    Ok(v) => v,
                    Err(e) => {
                        return Err(e);
                    },
                };
            },
        }
        if !timeout_vote.is_timeout() {
            let timeout = timeout_vote.timeout();
            let signature = match self.safety_rules.sign_timeout(&timeout) {
                Ok(s) => s,
                Err(e) => {
                    return Err(e);
                },
            };
            timeout_vote.add_timeout_signature(signature);
            actions.push(Action::SaveVote(timeout_vote));
        }
        self.round_state.record_vote(timeout_vote);
        let vote_msg = VoteMsg { vote: timeout_vote, sync_info: self.block_store.sync_info() };
        actions.push(Action::BroadcastVote(vote_msg));
        proof {
            let n = actions@.len();
            assert(actions@[n - 1] matches Action::BroadcastVote(vm) && vm.vote.spec_round()
                == round && vm.vote.spec_is_timeout());
            assert(actions@[0] matches Action::SaveVote(v) && v.spec_round() == round);
        }
        Ok(actions)
    }

    /// Serves a block-retrieval request: walks ancestors from the requested
    /// id, child to parent, collecting up to `num_blocks` blocks.
    ///
    /// `Succeeded` reports exactly the requested number of chained blocks
    /// starting at the requested id; `IdNotFound` reports an empty answer;
    /// `NotEnoughBlocks` reports the chain up to where the walk stopped.
    pub fn process_block_retrieval(&self, request: BlockRetrievalRequest) -> (r:
        BlockRetrievalResponse)
        requires
            self.wf(),
        ensures
            r.blocks@.len() <= request.num_blocks,
            r.status == BlockRetrievalStatus::Succeeded <==> r.blocks@.len() == request.num_blocks
                && request.num_blocks > 0,
            r.status == BlockRetrievalStatus::IdNotFound <==> r.blocks@.len() == 0,
            // A known id is answered: at least one block comes back, so
            // `IdNotFound` means exactly that the id is unknown.
            self.block_store.spec_has_block(request.block_id) && request.num_blocks > 0
                ==> r.blocks@.len() >= 1,
            request.num_blocks > 0 ==> (r.status == BlockRetrievalStatus::IdNotFound
                <==> !self.block_store.spec_has_block(request.block_id)),
            r.blocks@.len() > 0 ==> r.blocks@[0].id == request.block_id,
            forall|i: int|
                0 <= i < r.blocks@.len() - 1 ==> (#[trigger] r.blocks@[i + 1]).id
                    == r.blocks@[i].spec_parent_id(),
            forall|i: int|
                0 <= i < r.blocks@.len() ==> self.block_store.spec_has_block(
                    (#[trigger] r.blocks@[i]).id,
                ),
            // A short answer is authoritative for its prefix: the walk
            // stopped only at the chain's genesis or at a missing parent.
            0 < r.blocks@.len() < request.num_blocks ==> (r.blocks@.last().spec_parent_id()
                == r.blocks@.last().id || !self.block_store.spec_has_block(
                r.blocks@.last().spec_parent_id(),
            )),
    {
        let mut blocks: Vec<Block> = Vec::new();
        let mut id = request.block_id;
        let mut status = BlockRetrievalStatus::Succeeded;
        let mut stopped = false;
        while (blocks.len() as u64) < request.num_blocks && !stopped
            invariant
                self.wf(),
                blocks@.len() <= request.num_blocks,
                blocks@.len() > 0 ==> blocks@[0].id == request.block_id,
                forall|i: int|
                    0 <= i < blocks@.len() - 1 ==> (#[trigger] blocks@[i + 1]).id
                        == blocks@[i].spec_parent_id(),
                forall|i: int|
                    0 <= i < blocks@.len() ==> self.block_store.spec_has_block(
                        (#[trigger] blocks@[i]).id,
                    ),
                !stopped && blocks@.len() > 0 ==> id == blocks@.last().spec_parent_id(),
                blocks@.len() == 0 ==> id == request.block_id,
                blocks@.len() == 0 && stopped ==> !self.block_store.spec_has_block(
                    request.block_id,
                ),
                stopped && blocks@.len() > 0 ==> (blocks@.last().spec_parent_id()
                    == blocks@.last().id || !self.block_store.spec_has_block(
                    blocks@.last().spec_parent_id(),
                )),
            decreases request.num_blocks - blocks@.len(), if stopped { 0int } else { 1int },
        {
            match self.block_store.get_block(id) {
                Some(executed_block) => {
                    let next = executed_block.block.parent_id();
                    let b = executed_block.block.clone();
                    proof {
                        assert(b.id == id);
                    }
                    blocks.push(b);
                    if next == id {
                        // The chain ends where a block is its own parent
                        // (the genesis block): nothing older exists.
                        stopped = true;
                    }
                    id = next;
                },
                None => {
                    stopped = true;
                },
            }
        }
        if (blocks.len() as u64) < request.num_blocks || request.num_blocks == 0 {
            status = BlockRetrievalStatus::NotEnoughBlocks;
        }
        if blocks.len() == 0 {
            status = BlockRetrievalStatus::IdNotFound;
        }
        BlockRetrievalResponse { status, blocks }
    }

    /// The safety rules' counters.
    pub fn consensus_state(&self) -> (r: ConsensusState)
        ensures
            r == self.safety_rules.state,
    {
        self.safety_rules.consensus_state()
    }

    pub fn epoch_state(&self) -> (r: &EpochState)
        ensures
            r == &self.epoch_state,
    {
        &self.epoch_state
    }

    pub fn round_state(&self) -> (r: &RoundState)
        ensures
            r == &self.round_state,
    {
        &self.round_state
    }
}

/// The transactions pending in the store's uncommitted blocks: what the
/// proposer must exclude when pulling a fresh payload from the mempool, so
/// a transaction already carried by an uncommitted ancestor is not proposed
/// twice.
pub fn pending_transaction_pointers(bs: &BlockStore) -> (r: Vec<crate::mempool::TxnPointer>)
    ensures
        // Every transaction of an uncommitted stored block is excluded.
        forall|i: int, j: int|
            0 <= i < bs.blocks@.len() && (#[trigger] bs.blocks@[i]).block.id != bs.root_id && 0
                <= j < bs.blocks@[i].block.payload@.len() ==> r@.contains(
                crate::mempool::spec_ptr_of(#[trigger] bs.blocks@[i].block.payload@[j]),
            ),
{
    let mut r: Vec<crate::mempool::TxnPointer> = Vec::new();
    let mut i: usize = 0;
    while i < bs.blocks.len()
        invariant
            i <= bs.blocks@.len(),
            forall|i2: int, j: int|
                0 <= i2 < i && (#[trigger] bs.blocks@[i2]).block.id != bs.root_id && 0 <= j
                    < bs.blocks@[i2].block.payload@.len() ==> r@.contains(
                    crate::mempool::spec_ptr_of(#[trigger] bs.blocks@[i2].block.payload@[j]),
                ),
        decreases bs.blocks@.len() - i,
    {
        if bs.blocks[i].block.id != bs.root_id {
            let payload = &bs.blocks[i].block.payload;
            let mut j: usize = 0;
            while j < payload.len()
                invariant
                    i < bs.blocks@.len(),
                    j <= payload@.len(),
                    payload@ == bs.blocks@[i as int].block.payload@,
                    forall|i2: int, j2: int|
                        0 <= i2 < i && (#[trigger] bs.blocks@[i2]).block.id != bs.root_id && 0
                            <= j2 < bs.blocks@[i2].block.payload@.len() ==> r@.contains(
                            crate::mempool::spec_ptr_of(
                                #[trigger] bs.blocks@[i2].block.payload@[j2],
                            ),
                        ),
                    forall|j2: int|
                        0 <= j2 < j ==> r@.contains(
                            crate::mempool::spec_ptr_of(
                                #[trigger] bs.blocks@[i as int].block.payload@[j2],
                            ),
                        ),
                decreases payload@.len() - j,
            {
                let t = payload[j];
                let ghost r0 = r@;
                r.push(crate::mempool::TxnPointer {
                    address: t.sender,
                    sequence_number: t.sequence_number,
                });
                proof {
                    assert(r@[r@.len() - 1] == crate::mempool::spec_ptr_of(
                        bs.blocks@[i as int].block.payload@[j as int],
                    ));
                    assert forall|k: int|
                        0 <= k < r0.len() implies r@.contains(#[trigger] r0[k]) by {
                        assert(r@[k] == r0[k]);
                    }
                }
                j += 1;
            }
        }
        i += 1;
    }
    r
}

/// The voting-time rule: a replica may not vote before the block's
/// timestamp, and may not wait past the round deadline to do so.
///
/// With the clock at `now`, voting may proceed exactly when the block's
/// timestamp has passed. A timestamp ahead of the clock but inside the
/// deadline asks the caller to wait that long and try again; one at or past
/// the deadline can never be waited out, and the round ends without a vote.
pub fn wait_before_vote_if_needed(
    now_usecs: u64,
    block_timestamp_usecs: u64,
    current_round_deadline_usecs: u64,
) -> (r: Result<(), ConsensusError>)
    ensures
        r is Ok <==> block_timestamp_usecs <= now_usecs,
        r matches Err(e) ==> (e == ConsensusError::MaxWaitExceeded <==> block_timestamp_usecs
            >= current_round_deadline_usecs),
        r matches Err(e) ==> (block_timestamp_usecs < current_round_deadline_usecs ==> e == (
        ConsensusError::WaitRequired { wait_usecs: (block_timestamp_usecs - now_usecs) as u64 })),
{
    if block_timestamp_usecs <= now_usecs {
        return Ok(());
    }
    if block_timestamp_usecs >= current_round_deadline_usecs {
        return Err(ConsensusError::MaxWaitExceeded);
    }
    Err(ConsensusError::WaitRequired { wait_usecs: block_timestamp_usecs - now_usecs })
}

/// A snapshot drives recovery exactly when it verifies under the epoch's
/// validator set, reaches past the committed round within this epoch, and
/// its commit certificate's chain can be rebuilt from the fetched blocks.
pub open spec fn spec_recoverable(rm: RecoveryManager, sync_info: SyncInfo, retrieved: Seq<Block>) -> bool {
    &&& sync_info.spec_verified(rm.epoch_state.verifier)
    &&& sync_info.spec_highest_round() > rm.last_committed_round
    &&& sync_info.spec_epoch() == rm.epoch_state.epoch
    &&& sync_info.highest_commit_cert.commit_info matches Some(c) && retrieved.len() > 0
        && retrieved[0].spec_info() == sync_info.highest_commit_cert.certified()
        && crate::block_store::spec_chain_links(retrieved) && crate::block_store::spec_first_match(
        retrieved,
        c,
    )
}

/// Recovers a replica that cannot build a working round manager from local
/// state: it reads peers' snapshots only to fast-forward to a certified
/// commit.
#[derive(Debug)]
pub struct RecoveryManager {
    pub epoch_state: EpochState,
    pub last_committed_round: Round,
}

impl RecoveryManager {
    pub fn new(epoch_state: EpochState, last_committed_round: Round) -> (r: RecoveryManager)
        ensures
            r.epoch_state == epoch_state,
            r.last_committed_round == last_committed_round,
    {
        RecoveryManager { epoch_state, last_committed_round }
    }

    /// Uses a proposal only for its snapshot.
    pub fn process_proposal_msg(
        &mut self,
        proposal_msg: &ProposalMsg,
        retrieved: &Vec<Block>,
    ) -> (r: Result<RecoveryData, ConsensusError>)
        requires
            old(self).epoch_state.wf(),
        ensures
            *final(self) == *old(self),
            r is Ok <==> spec_recoverable(*old(self), proposal_msg.sync_info, retrieved@),
            r matches Ok(rd) ==> (proposal_msg.sync_info.highest_commit_cert.commit_info matches
                Some(c) && rd.root_block.spec_info() == c),
    {
        self.sync_up(&proposal_msg.sync_info, retrieved)
    }

    /// Uses a vote only for its snapshot.
    pub fn process_vote(&mut self, vote_msg: &VoteMsg, retrieved: &Vec<Block>) -> (r: Result<
        RecoveryData,
        ConsensusError,
    >)
        requires
            old(self).epoch_state.wf(),
        ensures
            *final(self) == *old(self),
            r is Ok <==> spec_recoverable(*old(self), vote_msg.sync_info, retrieved@),
            r matches Ok(rd) ==> (vote_msg.sync_info.highest_commit_cert.commit_info matches
                Some(c) && rd.root_block.spec_info() == c),
    {
        self.sync_up(&vote_msg.sync_info, retrieved)
    }

    /// Verifies a peer's snapshot, requires it to reach past the committed
    /// round within this epoch, and rebuilds the committed state from the
    /// fetched chain.
    fn sync_up(&self, sync_info: &SyncInfo, retrieved: &Vec<Block>) -> (r: Result<
        RecoveryData,
        ConsensusError,
    >)
        requires
            self.epoch_state.wf(),
        ensures
            r is Ok <==> spec_recoverable(*self, *sync_info, retrieved@),
            r matches Ok(rd) ==> (sync_info.highest_commit_cert.commit_info matches Some(c)
                && rd.root_block.spec_info() == c),
    {
        if !sync_info.verify(&self.epoch_state.verifier) {
            return Err(ConsensusError::VerificationFailed);
        }
        if sync_info.highest_round() <= self.last_committed_round {
            return Err(ConsensusError::StaleSyncInfo);
        }
        if sync_info.epoch() != self.epoch_state.epoch {
            return Err(ConsensusError::EpochMismatch);
        }
        fast_forward_sync(&sync_info.highest_commit_cert, retrieved)
    }

    pub fn epoch_state(&self) -> (r: &EpochState)
        ensures
            r == &self.epoch_state,
    {
        &self.epoch_state
    }
}

} // verus!
