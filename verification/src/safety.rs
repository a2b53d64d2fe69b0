//! The safety rules: the authoritative answer to "may I sign this vote,
//! timeout or proposal?".
//!
//! The rules own the persistent counters `{epoch, last_voted_round,
//! preferred_round}`. In this model the [`ConsensusState`] held here *is* the
//! durable state: a counter advances exactly when a signature is produced,
//! never on a refusal, and a restart reconstructs the rules from the same
//! state, so the voting constraints survive crashes.

use vstd::prelude::*;

use crate::types::{
    Author, Block, BlockInfo, ConsensusError, QuorumCert, Round, Signature, Timeout, Vote,
    VoteData, block_eq, max64,
};

verus! {

/// The persistent safety counters of one replica.
#[derive(Clone, Copy, PartialEq, Eq, Structural, Debug)]
pub struct ConsensusState {
    pub epoch: u64,
    pub last_voted_round: Round,
    pub preferred_round: Round,
}

/// The data a replica asks the safety rules to vote on: the executed block
/// and the block the 3-chain rule would commit if this vote gathers a quorum.
#[derive(Debug)]
pub struct VoteProposal {
    pub block: Block,
    pub commit_info: Option<BlockInfo>,
}

/// How the counters may move in one operation of the safety rules: the epoch
/// is fixed and both rounds are monotone non-decreasing.
pub open spec fn counters_step(pre: ConsensusState, post: ConsensusState) -> bool {
    &&& post.epoch == pre.epoch
    &&& post.last_voted_round >= pre.last_voted_round
    &&& post.preferred_round >= pre.preferred_round
}

/// What holds when the rules sign a vote: the voted round strictly exceeds
/// the last voted round and becomes the new last voted round.
pub open spec fn signs_vote(pre: ConsensusState, post: ConsensusState, v: Vote) -> bool {
    &&& v.spec_round() > pre.last_voted_round
    &&& post.last_voted_round == v.spec_round()
}

/// The safety oracle: pure predicates over the persistent counters.
#[derive(Debug)]
pub struct SafetyRules {
    pub author: Author,
    pub state: ConsensusState,
}

impl SafetyRules {
    /// Boots the rules from the persisted counters, as after a restart.
    pub fn new(author: Author, state: ConsensusState) -> (r: SafetyRules)
        ensures
            r.author == author,
            r.state == state,
    {
        SafetyRules { author, state }
    }

    /// A snapshot of the persistent counters.
    pub fn consensus_state(&self) -> (r: ConsensusState)
        ensures
            r == self.state,
    {
        self.state
    }

    /// Raises the preferred round to the round of the parent the highest
    /// quorum certificate carries.
    pub fn update(&mut self, qc: &QuorumCert)
        ensures
            final(self).author == old(self).author,
            final(self).state == (ConsensusState {
                preferred_round: max64(old(self).state.preferred_round, qc.parent().round),
                ..old(self).state
            }),
            counters_step(old(self).state, final(self).state),
    {
        let parent_round = qc.vote_data.parent.round;
        if parent_round > self.state.preferred_round {
            self.state.preferred_round = parent_round;
        }
    }

    /// Signs a vote for the proposed block if the Byzantine voting rules
    /// allow it: the block belongs to this epoch, its round strictly exceeds
    /// the last voted round, and its parent is not behind the preferred
    /// round. On success the last voted round advances to the block's round
    /// before the vote leaves; on a veto nothing changes.
    pub fn construct_and_sign_vote(&mut self, proposal: &VoteProposal) -> (r: Result<
        Vote,
        ConsensusError,
    >)
        ensures
            final(self).author == old(self).author,
            counters_step(old(self).state, final(self).state),
            r is Ok <==> {
                &&& proposal.block.epoch == old(self).state.epoch
                &&& proposal.block.round > old(self).state.last_voted_round
                &&& proposal.block.spec_parent_round() >= old(self).state.preferred_round
            },
            r matches Ok(v) ==> {
                &&& v == (Vote {
                    author: old(self).author,
                    vote_data: VoteData {
                        proposed: proposal.block.spec_info(),
                        parent: proposal.block.quorum_cert.certified(),
                    },
                    commit_info: proposal.commit_info,
                    timeout_signature: None,
                })
                &&& final(self).state == (ConsensusState {
                    last_voted_round: proposal.block.round,
                    ..old(self).state
                })
                &&& signs_vote(old(self).state, final(self).state, v)
            },
            r matches Err(e) ==> {
                &&& final(self).state == old(self).state
                &&& (e == ConsensusError::EpochMismatch <==> proposal.block.epoch != old(
                    self,
                ).state.epoch)
                &&& (e == ConsensusError::VoteRoundTooOld <==> proposal.block.epoch == old(
                    self,
                ).state.epoch && proposal.block.round <= old(self).state.last_voted_round)
                &&& (e == ConsensusError::ParentBehindPreferredRound <==> proposal.block.epoch
                    == old(self).state.epoch && proposal.block.round > old(
                    self,
                ).state.last_voted_round && proposal.block.spec_parent_round() < old(
                    self,
                ).state.preferred_round)
            },
    {
        if proposal.block.epoch != self.state.epoch {
            return Err(ConsensusError::EpochMismatch);
        }
        if proposal.block.round <= self.state.last_voted_round {
            return Err(ConsensusError::VoteRoundTooOld);
        }
        if proposal.block.quorum_cert.vote_data.proposed.round < self.state.preferred_round {
            return Err(ConsensusError::ParentBehindPreferredRound);
        }
        self.state.last_voted_round = proposal.block.round;
        Ok(
            Vote {
                author: self.author,
                vote_data: VoteData {
                    proposed: proposal.block.info(),
                    parent: proposal.block.quorum_cert.certified_block(),
                },
                commit_info: proposal.commit_info,
                timeout_signature: None,
            },
        )
    }

    /// Signs a timeout for a round if it is not behind the last voted round,
    /// advancing the last voted round to it first.
    pub fn sign_timeout(&mut self, timeout: &Timeout) -> (r: Result<Signature, ConsensusError>)
        ensures
            final(self).author == old(self).author,
            counters_step(old(self).state, final(self).state),
            r is Ok <==> timeout.epoch == old(self).state.epoch && timeout.round >= old(
                self,
            ).state.last_voted_round,
            r matches Ok(s) ==> {
                &&& s == (Signature { author: old(self).author })
                &&& final(self).state == (ConsensusState {
                    last_voted_round: timeout.round,
                    ..old(self).state
                })
            },
            r matches Err(e) ==> {
                &&& final(self).state == old(self).state
                &&& (e == ConsensusError::EpochMismatch <==> timeout.epoch != old(
                    self,
                ).state.epoch)
                &&& (e == ConsensusError::TimeoutRoundTooOld <==> timeout.epoch == old(
                    self,
                ).state.epoch && timeout.round < old(self).state.last_voted_round)
            },
    {
        if timeout.epoch != self.state.epoch {
            return Err(ConsensusError::EpochMismatch);
        }
        if timeout.round < self.state.last_voted_round {
            return Err(ConsensusError::TimeoutRoundTooOld);
        }
        self.state.last_voted_round = timeout.round;
        Ok(Signature { author: self.author })
    }

    /// Signs a proposal if its parent is not behind the preferred round. The
    /// counters do not move.
    pub fn sign_proposal(&self, block: Block) -> (r: Result<Block, ConsensusError>)
        ensures
            r is Ok <==> block.epoch == self.state.epoch && block.spec_parent_round()
                >= self.state.preferred_round,
            r matches Ok(b) ==> block_eq(b, block),
            r matches Err(e) ==> {
                &&& (e == ConsensusError::EpochMismatch <==> block.epoch != self.state.epoch)
                &&& (e == ConsensusError::ParentBehindPreferredRound <==> block.epoch
                    == self.state.epoch && block.spec_parent_round() < self.state.preferred_round)
            },
    {
        if block.epoch != self.state.epoch {
            return Err(ConsensusError::EpochMismatch);
        }
        if block.quorum_cert.vote_data.proposed.round < self.state.preferred_round {
            return Err(ConsensusError::ParentBehindPreferredRound);
        }
        Ok(block)
    }
}

/// The last voted round never decreases over any sequence of operations of
/// the safety rules: each operation satisfies [`counters_step`], and the
/// steps compose.
pub proof fn lemma_counters_monotone(states: Seq<ConsensusState>)
    requires
        states.len() > 0,
        forall|i: int|
            0 <= i < states.len() - 1 ==> #[trigger] counters_step(states[i], states[i + 1]),
    ensures
        counters_step(states.first(), states.last()),
    decreases states.len(),
{
    if states.len() > 1 {
        let rest = states.drop_last();
        assert forall|i: int|
            0 <= i < rest.len() - 1 implies #[trigger] counters_step(
            rest[i],
            rest[i + 1],
        ) by {
            assert(counters_step(states[i], states[i + 1]));
        }
        lemma_counters_monotone(rest);
        let k = states.len() - 2;
        assert(counters_step(states[k as int], states[k as int + 1]));
        assert(states.last() == states[k as int + 1]);
        assert(rest.last() == states[k as int]);
    }
}

/// No equivocation: two votes signed by the safety rules, in this order and
/// with any operations of the rules between them (a restart reloads the same
/// persisted counters and is no operation at all), are for strictly
/// increasing rounds — so a replica signs at most one vote per round.
pub proof fn lemma_no_vote_equivocation(
    pre1: ConsensusState,
    post1: ConsensusState,
    v1: Vote,
    pre2: ConsensusState,
    post2: ConsensusState,
    v2: Vote,
)
    requires
        signs_vote(pre1, post1, v1),
        signs_vote(pre2, post2, v2),
        pre2.last_voted_round >= post1.last_voted_round,
    ensures
        v2.spec_round() > v1.spec_round(),
{
}

} // verus!
