//! Per-round liveness state: the current round and its deadline, the vote
//! sent in this round, and the aggregator that turns pending votes into
//! quorum or timeout certificates.

use vstd::prelude::*;

use crate::types::{
    Author, QuorumCert, Round, SyncInfo, TimeoutCertificate, ValidatorVerifier, Vote, VoteData,
};

verus! {

/// Why a new round started.
#[derive(Clone, Copy, PartialEq, Eq, Structural, Debug)]
pub enum NewRoundReason {
    /// A quorum certificate for the previous round arrived.
    QCReady,
    /// A timeout certificate for the previous round arrived.
    Timeout,
}

/// The start of a new round, with the timeout to arm its timer with.
#[derive(Clone, Copy, PartialEq, Eq, Structural, Debug)]
pub struct NewRoundEvent {
    pub round: Round,
    pub reason: NewRoundReason,
    pub timeout_usecs: u64,
}

/// What inserting a vote into the aggregator produced.
#[derive(Debug)]
pub enum VoteReceptionResult {
    /// The vote was recorded; no certificate formed yet.
    Added,
    /// The author already sent this very vote.
    DuplicateVote,
    /// The author already voted for different data in this round.
    EquivocateVote(Author),
    /// The vote completed a quorum certificate.
    NewQuorumCertificate(QuorumCert),
    /// The vote's timeout signature completed a timeout certificate.
    NewTimeoutCertificate(TimeoutCertificate),
    /// The vote does not belong to the current round.
    ErrorAddingVote,
}

/// The authors who voted for exactly this data, in vote order.
pub open spec fn spec_voters_for(votes: Seq<Vote>, data: VoteData) -> Seq<Author>
    decreases votes.len(),
{
    if votes.len() == 0 {
        Seq::empty()
    } else {
        let rest = spec_voters_for(votes.drop_last(), data);
        if votes.last().vote_data == data {
            rest.push(votes.last().author)
        } else {
            rest
        }
    }
}

/// The authors whose votes carry a timeout signature for the round, in vote
/// order.
pub open spec fn spec_timeout_signers(votes: Seq<Vote>, round: Round) -> Seq<Author>
    decreases votes.len(),
{
    if votes.len() == 0 {
        Seq::empty()
    } else {
        let rest = spec_timeout_signers(votes.drop_last(), round);
        if votes.last().spec_is_timeout() && votes.last().spec_round() == round {
            rest.push(votes.last().author)
        } else {
            rest
        }
    }
}

/// Collects the votes of the current round, at most one per author.
#[derive(Debug)]
pub struct PendingVotes {
    pub votes: Vec<Vote>,
}

impl PendingVotes {
    /// At most one vote per author.
    pub open spec fn wf(self) -> bool {
        forall|i: int, j: int|
            0 <= i < j < self.votes@.len() ==> self.votes@[i].author != self.votes@[j].author
    }

    pub fn new() -> (r: PendingVotes)
        ensures
            r.wf(),
            r.votes@.len() == 0,
    {
        PendingVotes { votes: Vec::new() }
    }

    /// Records the vote and reports whether it completed a certificate.
    ///
    /// A vote equal in data to the author's earlier one is a duplicate,
    /// unless it newly carries a timeout signature, in which case it replaces
    /// the earlier vote. A vote for different data than the author's earlier
    /// one is equivocation and is not recorded. Otherwise the vote is added;
    /// if the voters for the same data now carry a quorum of power, a quorum
    /// certificate forms, else if the timeout signers of the round do, a
    /// timeout certificate forms.
    pub fn insert_vote(&mut self, vote: &Vote, verifier: &ValidatorVerifier) -> (r:
        VoteReceptionResult)
        requires
            old(self).wf(),
            verifier.wf(),
        ensures
            final(self).wf(),
            (r is DuplicateVote) <==> exists|i: int|
                #![auto]
                0 <= i < old(self).votes@.len() && old(self).votes@[i].author == vote.author
                    && old(self).votes@[i].vote_data == vote.vote_data && (old(
                    self,
                ).votes@[i].spec_is_timeout() || !vote.spec_is_timeout()),
            (r matches VoteReceptionResult::EquivocateVote(a) && a == vote.author) <==> exists|i: int|
                #![auto]
                0 <= i < old(self).votes@.len() && old(self).votes@[i].author == vote.author
                    && old(self).votes@[i].vote_data != vote.vote_data,
            (r is DuplicateVote || r is EquivocateVote) ==> final(self).votes@ == old(
                self,
            ).votes@,
            !(r is DuplicateVote || r is EquivocateVote) ==> exists|i: int|
                #![auto]
                0 <= i < final(self).votes@.len() && final(self).votes@[i] == *vote,
            r matches VoteReceptionResult::NewQuorumCertificate(qc) ==> {
                &&& qc.vote_data == vote.vote_data
                &&& qc.commit_info == vote.commit_info
                &&& verifier.spec_has_quorum(qc.signers@.to_set())
                &&& qc.signers@ == spec_voters_for(final(self).votes@, vote.vote_data)
            },
            r matches VoteReceptionResult::NewTimeoutCertificate(tc) ==> {
                &&& tc.round == vote.spec_round()
                &&& tc.epoch == vote.spec_epoch()
                &&& verifier.spec_has_quorum(tc.signers@.to_set())
                &&& tc.signers@ == spec_timeout_signers(final(self).votes@, vote.spec_round())
            },
            !(r is ErrorAddingVote),
            // Certificate formation is owed: once the vote is recorded, a
            // quorum of voters for its data yields a quorum certificate, else
            // a quorum of the round's timeout signers yields a timeout
            // certificate, else the vote is merely added.
            !(r is DuplicateVote || r is EquivocateVote) ==> {
                &&& (r is NewQuorumCertificate <==> verifier.spec_has_quorum(
                    spec_voters_for(final(self).votes@, vote.vote_data).to_set(),
                ))
                &&& (r is NewTimeoutCertificate <==> !verifier.spec_has_quorum(
                    spec_voters_for(final(self).votes@, vote.vote_data).to_set(),
                ) && verifier.spec_has_quorum(
                    spec_timeout_signers(final(self).votes@, vote.spec_round()).to_set(),
                ))
            },
            !(exists|i: int|
                0 <= i < old(self).votes@.len() && (#[trigger] old(self).votes@[i]).author
                    == vote.author) ==> final(self).votes@ == old(self).votes@.push(*vote),
    {
        // Look for an earlier vote by the same author.
        let mut idx: usize = 0;
        let mut found = false;
        while idx < self.votes.len() && !found
            invariant
                idx <= self.votes@.len(),
                !found ==> forall|k: int| 0 <= k < idx ==> self.votes@[k].author != vote.author,
                found ==> idx < self.votes@.len() && self.votes@[idx as int].author == vote.author,
            decreases self.votes@.len() - idx, if found { 0int } else { 1int },
        {
            if self.votes[idx].author == vote.author {
                found = true;
            } else {
                idx += 1;
            }
        }
        if found {
            if !(self.votes[idx].vote_data == vote.vote_data) {
                return VoteReceptionResult::EquivocateVote(vote.author);
            }
            if self.votes[idx].is_timeout() || !vote.is_timeout() {
                return VoteReceptionResult::DuplicateVote;
            }
            // The same vote, now with a timeout signature: replace it.
            self.votes.set(idx, *vote);
        } else {
            self.votes.push(*vote);
        }
        proof {
            assert(final(self).votes@[if found {
                idx as int
            } else {
                final(self).votes@.len() - 1
            }] == *vote);
        }

        // Try to aggregate a quorum certificate for the voted data.
        let mut qc_signers: Vec<Author> = Vec::new();
        let mut i: usize = 0;
        while i < self.votes.len()
            invariant
                i <= self.votes@.len(),
                qc_signers@ == spec_voters_for(self.votes@.take(i as int), vote.vote_data),
            decreases self.votes@.len() - i,
        {
            proof {
                assert(self.votes@.take(i + 1).drop_last() =~= self.votes@.take(i as int));
                assert(self.votes@.take(i + 1).last() == self.votes@[i as int]);
            }
            if self.votes[i].vote_data == vote.vote_data {
                qc_signers.push(self.votes[i].author);
            }
            i += 1;
        }
        proof {
            assert(self.votes@.take(self.votes@.len() as int) =~= self.votes@);
        }
        if verifier.check_voting_power(&qc_signers) {
            return VoteReceptionResult::NewQuorumCertificate(
                QuorumCert {
                    vote_data: vote.vote_data,
                    commit_info: vote.commit_info,
                    signers: qc_signers,
                },
            );
        }

        // Try to aggregate a timeout certificate for the round.
        let mut tc_signers: Vec<Author> = Vec::new();
        let mut j: usize = 0;
        while j < self.votes.len()
            invariant
                j <= self.votes@.len(),
                tc_signers@ == spec_timeout_signers(self.votes@.take(j as int), vote.spec_round()),
            decreases self.votes@.len() - j,
        {
            proof {
                assert(self.votes@.take(j + 1).drop_last() =~= self.votes@.take(j as int));
                assert(self.votes@.take(j + 1).last() == self.votes@[j as int]);
            }
            if self.votes[j].is_timeout() && self.votes[j].round() == vote.round() {
                tc_signers.push(self.votes[j].author);
            }
            j += 1;
        }
        proof {
            assert(self.votes@.take(self.votes@.len() as int) =~= self.votes@);
        }
        if verifier.check_voting_power(&tc_signers) {
            return VoteReceptionResult::NewTimeoutCertificate(
                TimeoutCertificate {
                    epoch: vote.epoch(),
                    round: vote.round(),
                    signers: tc_signers,
                },
            );
        }

        VoteReceptionResult::Added
    }
}

/// The per-round state: current round, deadline, last vote sent, pending
/// votes, and the backoff counter for consecutive timed-out rounds.
#[derive(Debug)]
pub struct RoundState {
    /// The configured duration of a round, in microseconds.
    pub base_timeout_usecs: u64,
    pub current_round: Round,
    /// Wall-clock deadline of the current round, in microseconds.
    pub current_round_deadline: u64,
    pub pending_votes: PendingVotes,
    /// The vote sent in the current round, if any.
    pub vote_sent: Option<Vote>,
    /// How many rounds in a row started because of a timeout.
    pub consecutive_timeout_rounds: u64,
}

/// How the round state may move in one operation: the current round never
/// decreases.
pub open spec fn round_step(pre: RoundState, post: RoundState) -> bool {
    post.current_round >= pre.current_round
}

/// Exponential backoff: the base timeout doubled once per consecutive
/// timed-out round, capped at 32 times the base and at the largest
/// representable duration.
pub open spec fn spec_backoff_timeout(base: u64, consecutive: u64) -> u64 {
    let factor: u64 = if consecutive == 0 {
        1u64
    } else if consecutive == 1 {
        2u64
    } else if consecutive == 2 {
        4u64
    } else if consecutive == 3 {
        8u64
    } else if consecutive == 4 {
        16u64
    } else {
        32u64
    };
    if base > u64::MAX as int / factor as int {
        u64::MAX
    } else {
        (base * factor) as u64
    }
}

/// Computes [`spec_backoff_timeout`].
pub fn backoff_timeout(base: u64, consecutive: u64) -> (r: u64)
    ensures
        r == spec_backoff_timeout(base, consecutive),
{
    if consecutive == 0 {
        base
    } else if consecutive == 1 {
        if base > u64::MAX / 2 {
            u64::MAX
        } else {
            base * 2
        }
    } else if consecutive == 2 {
        if base > u64::MAX / 4 {
            u64::MAX
        } else {
            base * 4
        }
    } else if consecutive == 3 {
        if base > u64::MAX / 8 {
            u64::MAX
        } else {
            base * 8
        }
    } else if consecutive == 4 {
        if base > u64::MAX / 16 {
            u64::MAX
        } else {
            base * 16
        }
    } else {
        if base > u64::MAX / 32 {
            u64::MAX
        } else {
            base * 32
        }
    }
}

impl RoundState {
    /// Starts before the first round; the first certificates seen will open
    /// round 1 or later.
    pub fn new(base_timeout_usecs: u64) -> (r: RoundState)
        ensures
            r.current_round == 0,
            r.base_timeout_usecs == base_timeout_usecs,
            r.vote_sent is None,
            r.pending_votes.wf(),
    {
        RoundState {
            base_timeout_usecs,
            current_round: 0,
            current_round_deadline: 0,
            pending_votes: PendingVotes::new(),
            vote_sent: None,
            consecutive_timeout_rounds: 0,
        }
    }

    pub fn current_round(&self) -> (r: Round)
        ensures
            r == self.current_round,
    {
        self.current_round
    }

    pub fn current_round_deadline(&self) -> (r: u64)
        ensures
            r == self.current_round_deadline,
    {
        self.current_round_deadline
    }

    pub fn vote_sent(&self) -> (r: Option<Vote>)
        ensures
            r == self.vote_sent,
    {
        self.vote_sent
    }

    /// Remembers the last vote sent in this round.
    pub fn record_vote(&mut self, vote: Vote)
        ensures
            *final(self) == (RoundState { vote_sent: Some(vote), ..*old(self) }),
            round_step(*old(self), *final(self)),
    {
        self.vote_sent = Some(vote);
    }

    /// A local timeout is only legitimate for the current round.
    pub fn process_local_timeout(&self, round: Round) -> (r: bool)
        ensures
            r == (round == self.current_round),
    {
        round == self.current_round
    }

    /// Opens a new round if the certificates reach past the current one.
    ///
    /// The new round is one past the highest certified or timed-out round.
    /// On a transition the pending votes and the sent vote are reset and the
    /// deadline is armed `timeout` past `now`, where `timeout` backs off
    /// exponentially with consecutive timed-out rounds.
    pub fn process_certificates(&mut self, sync_info: &SyncInfo, now_usecs: u64) -> (r: Option<
        NewRoundEvent,
    >)
        requires
            old(self).pending_votes.wf(),
            sync_info.spec_highest_round() < u64::MAX,
        ensures
            round_step(*old(self), *final(self)),
            final(self).pending_votes.wf(),
            final(self).base_timeout_usecs == old(self).base_timeout_usecs,
            r is Some <==> sync_info.spec_highest_round() + 1 > old(self).current_round,
            r is None ==> *final(self) == *old(self),
            r matches Some(e) ==> {
                &&& e.round == sync_info.spec_highest_round() + 1
                &&& final(self).current_round == e.round
                &&& final(self).vote_sent is None
                &&& final(self).pending_votes.votes@.len() == 0
                &&& e.reason == (if sync_info.spec_timeout_round()
                    > sync_info.highest_quorum_cert.certified().round {
                    NewRoundReason::Timeout
                } else {
                    NewRoundReason::QCReady
                })
                &&& e.timeout_usecs == spec_backoff_timeout(
                    old(self).base_timeout_usecs,
                    final(self).consecutive_timeout_rounds,
                )
                &&& final(self).current_round_deadline == (if now_usecs + e.timeout_usecs
                    > u64::MAX {
                    u64::MAX
                } else {
                    (now_usecs + e.timeout_usecs) as u64
                })
            },
    {
        let qc_round = sync_info.highest_quorum_cert.vote_data.proposed.round;
        let tc_round = sync_info.timeout_round();
        let highest = if qc_round >= tc_round {
            qc_round
        } else {
            tc_round
        };
        let new_round = highest + 1;
        if new_round <= self.current_round {
            return None;
        }
        let reason = if tc_round > qc_round {
            NewRoundReason::Timeout
        } else {
            NewRoundReason::QCReady
        };
        self.consecutive_timeout_rounds = match reason {
            NewRoundReason::Timeout => {
                if self.consecutive_timeout_rounds < u64::MAX {
                    self.consecutive_timeout_rounds + 1
                } else {
                    self.consecutive_timeout_rounds
                }
            },
            NewRoundReason::QCReady => 0,
        };
        let timeout = backoff_timeout(self.base_timeout_usecs, self.consecutive_timeout_rounds);
        self.current_round = new_round;
        self.current_round_deadline = if now_usecs > u64::MAX - timeout {
            u64::MAX
        } else {
            now_usecs + timeout
        };
        self.vote_sent = None;
        self.pending_votes = PendingVotes::new();
        Some(NewRoundEvent { round: new_round, reason, timeout_usecs: timeout })
    }

    /// Feeds a vote of the current round to the aggregator. A vote of any
    /// other round is refused.
    pub fn insert_vote(&mut self, vote: &Vote, verifier: &ValidatorVerifier) -> (r:
        VoteReceptionResult)
        requires
            old(self).pending_votes.wf(),
            verifier.wf(),
        ensures
            final(self).pending_votes.wf(),
            final(self).current_round == old(self).current_round,
            round_step(*old(self), *final(self)),
            final(self).vote_sent == old(self).vote_sent,
            (r is ErrorAddingVote) <==> vote.spec_round() != old(self).current_round,
            r matches VoteReceptionResult::NewQuorumCertificate(qc) ==> {
                &&& qc.vote_data == vote.vote_data
                &&& qc.commit_info == vote.commit_info
                &&& verifier.spec_has_quorum(qc.signers@.to_set())
            },
            r matches VoteReceptionResult::NewTimeoutCertificate(tc) ==> {
                &&& tc.round == vote.spec_round()
                &&& tc.epoch == vote.spec_epoch()
                &&& verifier.spec_has_quorum(tc.signers@.to_set())
            },
            // Certificate formation is owed once the vote is recorded.
            !(r is ErrorAddingVote || r is DuplicateVote || r is EquivocateVote) ==> {
                &&& (r is NewQuorumCertificate <==> verifier.spec_has_quorum(
                    spec_voters_for(final(self).pending_votes.votes@, vote.vote_data).to_set(),
                ))
                &&& (r is NewTimeoutCertificate <==> !verifier.spec_has_quorum(
                    spec_voters_for(final(self).pending_votes.votes@, vote.vote_data).to_set(),
                ) && verifier.spec_has_quorum(
                    spec_timeout_signers(
                        final(self).pending_votes.votes@,
                        vote.spec_round(),
                    ).to_set(),
                ))
            },
            vote.spec_round() == old(self).current_round && !(exists|i: int|
                0 <= i < old(self).pending_votes.votes@.len() && (#[trigger] old(self).pending_votes.votes@[i]).author == vote.author) ==> final(self).pending_votes.votes@ == old(self).pending_votes.votes@.push(*vote),
            // Only a repeated author can be a duplicate or an equivocation.
            (r is DuplicateVote || r is EquivocateVote) ==> exists|i: int|
                0 <= i < old(self).pending_votes.votes@.len() && (#[trigger] old(self).pending_votes.votes@[i]).author == vote.author,
    {
        if vote.round() != self.current_round {
            return VoteReceptionResult::ErrorAddingVote;
        }
        self.pending_votes.insert_vote(vote, verifier)
    }
}

/// The current round is monotone non-decreasing over any sequence of
/// operations: each operation satisfies [`round_step`], and steps compose.
pub proof fn lemma_round_monotone(rounds: Seq<Round>)
    requires
        rounds.len() > 0,
        forall|i: int| 0 <= i < rounds.len() - 1 ==> rounds[i] <= #[trigger] rounds[i + 1],
    ensures
        rounds.first() <= rounds.last(),
    decreases rounds.len(),
{
    if rounds.len() > 1 {
        let rest = rounds.drop_last();
        assert forall|i: int| 0 <= i < rest.len() - 1 implies rest[i] <= #[trigger] rest[i
            + 1] by {
            assert(rounds[i] <= rounds[i + 1]);
        }
        lemma_round_monotone(rest);
        let k = rounds.len() - 2;
        assert(rounds[k as int] <= rounds[k as int + 1]);
    }
}

/// A new round begins at most once per round number: an event's round
/// strictly exceeds the round it left, so with the current round monotone,
/// two events — however many operations apart — carry distinct (increasing)
/// rounds. Since the round timer is armed only by the event of its round, the
/// timer of a round fires at most once, and `process_local_timeout` answers
/// `true` at most once per round.
pub proof fn lemma_one_new_round_event_per_round(
    pre1: RoundState,
    post1: RoundState,
    e1: NewRoundEvent,
    pre2: RoundState,
    post2: RoundState,
    e2: NewRoundEvent,
)
    requires
        e1.round == post1.current_round && post1.current_round > pre1.current_round,
        e2.round == post2.current_round && post2.current_round > pre2.current_round,
        pre2.current_round >= post1.current_round,
    ensures
        e2.round > e1.round,
{
}

} // verus!
