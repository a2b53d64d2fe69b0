//! Data carried by the consensus protocol: blocks, certificates, votes,
//! sync snapshots and the messages that move them between replicas.
//!
//! Cryptographic material is modelled by plain values: an author stands for a
//! public key, a block id for the hash of the block's fields, and a
//! certificate's signer list for its aggregated signatures. Verification of a
//! certificate checks that its signers carry a quorum of voting power under
//! the epoch's validator set.

use vstd::prelude::*;

verus! {

/// A round number scoping one proposal + vote attempt.
pub type Round = u64;

/// A validator identity; stands in for an account address / public key.
pub type Author = u64;

/// A block identifier; stands in for the cryptographic hash of the block.
pub type BlockId = u64;

/// Why an operation of the consensus core was refused.
#[derive(Clone, Copy, PartialEq, Eq, Structural, Debug)]
pub enum ConsensusError {
    /// A message or certificate failed verification under the validator set.
    VerificationFailed,
    /// A message belongs to another epoch and is discarded.
    EpochMismatch,
    /// A proposal arrived for a round older than the current one.
    StaleProposal,
    /// The proposal's author is not the proposer elected for its round.
    InvalidProposer,
    /// After syncing, the proposal's round no longer matches the current round.
    ProposalRoundMismatch,
    /// A sync snapshot is structurally inconsistent.
    InvalidSyncInfo,
    /// A sync snapshot does not go past the locally committed round.
    StaleSyncInfo,
    /// Ancestor retrieval did not supply enough blocks to connect a certificate.
    MissingBlocks,
    /// A block references a parent that is not in the store.
    BlockNotFound,
    /// A block contradicts the certificate it carries.
    InvalidBlock,
    /// A proposal was already generated for this round.
    ProposalAlreadyGenerated,
    /// Safety veto: the proposed round does not exceed the last voted round.
    VoteRoundTooOld,
    /// Safety veto: the proposal's parent is behind the preferred round.
    ParentBehindPreferredRound,
    /// Safety veto: the timeout round is behind the last voted round.
    TimeoutRoundTooOld,
    /// A local timeout fired for a round that is no longer current.
    StaleTimeout,
    /// A vote was already sent in this round.
    AlreadyVoted,
    /// The block's round does not match the current round.
    RoundIncorrect,
    /// Waiting for the block timestamp would overrun the round deadline.
    MaxWaitExceeded,
    /// The block timestamp lies ahead of the clock: wait this long, then retry.
    WaitRequired { wait_usecs: u64 },
    /// A regular vote arrived at a replica that does not lead the next round.
    VoteNotForThisReplica,
    /// The known certificates do not start a newer round.
    NoNewRound,
}

/// Identifying data of a block as carried inside certificates.
#[derive(Clone, Copy, PartialEq, Eq, Structural, Debug)]
pub struct BlockInfo {
    pub id: BlockId,
    pub epoch: u64,
    pub round: Round,
    pub timestamp_usecs: u64,
}

/// The pair of blocks a vote speaks about: the proposed block and the parent
/// certified by the proposal's quorum certificate.
#[derive(Clone, Copy, PartialEq, Eq, Structural, Debug)]
pub struct VoteData {
    pub proposed: BlockInfo,
    pub parent: BlockInfo,
}

impl VoteData {
    /// A vote may only speak of a proposal that extends its parent into a
    /// strictly later round of the same epoch.
    pub open spec fn wf(self) -> bool {
        &&& self.proposed.round > self.parent.round
        &&& self.proposed.epoch == self.parent.epoch
        &&& self.proposed.timestamp_usecs >= self.parent.timestamp_usecs
    }
}

/// One validator of the epoch with its voting power.
#[derive(Clone, Copy, PartialEq, Eq, Structural, Debug)]
pub struct ValidatorInfo {
    pub author: Author,
    pub voting_power: u64,
}

/// Sum of the voting powers of a validator list.
pub open spec fn sum_powers(validators: Seq<ValidatorInfo>) -> int
    decreases validators.len(),
{
    if validators.len() == 0 {
        0
    } else {
        sum_powers(validators.drop_last()) + validators.last().voting_power
    }
}

/// Sum of the voting powers of the validators whose author is in `authors`.
pub open spec fn powers_of(validators: Seq<ValidatorInfo>, authors: Set<Author>) -> int
    decreases validators.len(),
{
    if validators.len() == 0 {
        0
    } else {
        powers_of(validators.drop_last(), authors) + if authors.contains(
            validators.last().author,
        ) {
            validators.last().voting_power as int
        } else {
            0
        }
    }
}

/// The validator set of one epoch, with the quorum threshold derived from the
/// total voting power. Stands in for the set of public keys a replica checks
/// signatures against.
#[derive(Debug)]
pub struct ValidatorVerifier {
    pub validators: Vec<ValidatorInfo>,
    pub total_voting_power: u64,
    pub quorum_voting_power: u64,
}

impl ValidatorVerifier {
    /// Authors are unique, the total is the sum of the powers, and a quorum
    /// is strictly more than two thirds of the total.
    pub open spec fn wf(self) -> bool {
        &&& forall|i: int, j: int|
            0 <= i < j < self.validators@.len() ==> self.validators@[i].author
                != self.validators@[j].author
        &&& self.total_voting_power == sum_powers(self.validators@)
        &&& self.quorum_voting_power == self.total_voting_power as int * 2 / 3 + 1
    }

    pub open spec fn spec_validators(self) -> Seq<ValidatorInfo> {
        self.validators@
    }

    pub open spec fn spec_quorum(self) -> u64 {
        self.quorum_voting_power
    }

    /// Whether `author` belongs to the validator set.
    pub open spec fn spec_is_validator(self, author: Author) -> bool {
        exists|i: int|
            0 <= i < self.validators@.len() && self.validators@[i].author == author
    }

    /// Whether a set of authors carries at least a quorum of voting power.
    pub open spec fn spec_has_quorum(self, authors: Set<Author>) -> bool {
        powers_of(self.validators@, authors) >= self.quorum_voting_power
    }

    /// Builds the verifier, refusing duplicate authors and totals so large
    /// that the quorum threshold could not be computed in 64 bits.
    pub fn new(validators: Vec<ValidatorInfo>) -> (r: Option<ValidatorVerifier>)
        ensures
            r is Some ==> r->0.wf() && r->0.spec_validators() == validators@,
            // The verifier is owed for a reasonable validator set: unique
            // authors with a comfortably bounded total voting power.
            (forall|i: int, j: int|
                0 <= i < j < validators@.len() ==> validators@[i].author
                    != validators@[j].author) && sum_powers(validators@) <= (u64::MAX - 1) / 2
                ==> r is Some,
    {
        let mut total: u64 = 0;
        let mut i: usize = 0;
        while i < validators.len()
            invariant
                i <= validators.len(),
                total == sum_powers(validators@.take(i as int)),
                total <= u64::MAX as int,
                forall|a: int, b: int|
                    0 <= a < b < i ==> validators@[a].author != validators@[b].author,
            decreases validators.len() - i,
        {
            let mut j: usize = 0;
            while j < i
                invariant
                    j <= i < validators.len(),
                    forall|b: int| 0 <= b < j ==> validators@[b].author != validators@[i as int].author,
                decreases i - j,
            {
                if validators[j].author == validators[i].author {
                    return None;
                }
                j += 1;
            }
            let p = validators[i].voting_power;
            if total > u64::MAX / 2 || p > u64::MAX / 2 {
                proof {
                    lemma_sum_powers_prefix(validators@, i as int);
                    lemma_sum_powers_prefix(validators@, i + 1);
                    assert(validators@.take(i + 1).drop_last() =~= validators@.take(i as int));
                    assert(sum_powers(validators@.take(i + 1)) == total + p);
                }
                return None;
            }
            proof {
                assert(validators@.take(i + 1).drop_last() =~= validators@.take(i as int));
            }
            total = total + p;
            i += 1;
        }
        proof {
            assert(validators@.take(validators@.len() as int) =~= validators@);
        }
        if total > (u64::MAX - 1) / 2 {
            return None;
        }
        Some(
            ValidatorVerifier {
                validators,
                total_voting_power: total,
                quorum_voting_power: total * 2 / 3 + 1,
            },
        )
    }

    /// Whether `author` belongs to the validator set.
    pub fn is_validator(&self, author: Author) -> (r: bool)
        ensures
            r == self.spec_is_validator(author),
    {
        let mut i: usize = 0;
        while i < self.validators.len()
            invariant
                i <= self.validators@.len(),
                forall|k: int| 0 <= k < i ==> self.validators@[k].author != author,
            decreases self.validators@.len() - i,
        {
            if self.validators[i].author == author {
                return true;
            }
            i += 1;
        }
        false
    }

    /// Sums the voting power of the given authors and compares it to the
    /// quorum threshold. Authors outside the validator set carry no power;
    /// duplicates in the list are counted once.
    pub fn check_voting_power(&self, authors: &Vec<Author>) -> (r: bool)
        requires
            self.wf(),
        ensures
            r == self.spec_has_quorum(authors@.to_set()),
    {
        let ghost aset = authors@.to_set();
        let mut acc: u64 = 0;
        let mut i: usize = 0;
        while i < self.validators.len()
            invariant
                self.wf(),
                i <= self.validators@.len(),
                aset == authors@.to_set(),
                acc == powers_of(self.validators@.take(i as int), aset),
                acc <= sum_powers(self.validators@.take(i as int)),
            decreases self.validators@.len() - i,
        {
            proof {
                assert(self.validators@.take(i + 1).drop_last() =~= self.validators@.take(i as int));
                lemma_sum_powers_prefix(self.validators@, i + 1);
            }
            if contains_author(authors, self.validators[i].author) {
                proof {
                    assert(aset.contains(self.validators@[i as int].author));
                }
                acc = acc + self.validators[i].voting_power;
            } else {
                proof {
                    assert(!aset.contains(self.validators@[i as int].author));
                }
            }
            i += 1;
        }
        proof {
            assert(self.validators@.take(self.validators@.len() as int) =~= self.validators@);
        }
        acc >= self.quorum_voting_power
    }
}

/// The sum over a prefix never exceeds the sum over the whole list.
pub proof fn lemma_sum_powers_prefix(validators: Seq<ValidatorInfo>, n: int)
    requires
        0 <= n <= validators.len(),
    ensures
        sum_powers(validators.take(n)) <= sum_powers(validators),
    decreases validators.len(),
{
    if n < validators.len() {
        assert(validators.drop_last().take(n) =~= validators.take(n));
        lemma_sum_powers_prefix(validators.drop_last(), n);
    } else {
        assert(validators.take(n) =~= validators);
    }
}

/// Whether `author` occurs in the list.
pub fn contains_author(authors: &Vec<Author>, author: Author) -> (r: bool)
    ensures
        r == authors@.to_set().contains(author),
{
    let mut i: usize = 0;
    while i < authors.len()
        invariant
            i <= authors@.len(),
            forall|k: int| 0 <= k < i ==> authors@[k] != author,
        decreases authors@.len() - i,
    {
        if authors[i] == author {
            proof {
                assert(authors@.contains(author));
            }
            return true;
        }
        i += 1;
    }
    proof {
        assert(!authors@.contains(author));
    }
    false
}

/// Epoch number plus the validator set fixed for its duration.
#[derive(Debug)]
pub struct EpochState {
    pub epoch: u64,
    pub verifier: ValidatorVerifier,
}

impl EpochState {
    pub open spec fn wf(self) -> bool {
        self.verifier.wf()
    }
}

/// Copies a vector of plain values.
pub fn dup_authors(v: &Vec<Author>) -> (r: Vec<Author>)
    ensures
        r@ == v@,
{
    let mut r: Vec<Author> = Vec::new();
    let mut i: usize = 0;
    while i < v.len()
        invariant
            i <= v@.len(),
            r@ == v@.take(i as int),
        decreases v@.len() - i,
    {
        r.push(v[i]);
        proof {
            assert(r@ =~= v@.take(i + 1));
        }
        i += 1;
    }
    proof {
        assert(v@.take(v@.len() as int) =~= v@);
    }
    r
}

/// A certificate of at least a quorum of votes over one proposed block.
#[derive(Debug)]
pub struct QuorumCert {
    pub vote_data: VoteData,
    /// The block the 3-chain rule commits when this certificate forms, if any.
    pub commit_info: Option<BlockInfo>,
    /// The authors whose aggregated signatures make up the certificate.
    pub signers: Vec<Author>,
}

/// Value equality of quorum certificates, comparing the signer lists by
/// contents.
pub open spec fn qc_eq(a: QuorumCert, b: QuorumCert) -> bool {
    &&& a.vote_data == b.vote_data
    &&& a.commit_info == b.commit_info
    &&& a.signers@ == b.signers@
}

impl Clone for QuorumCert {
    fn clone(&self) -> (r: Self)
        ensures
            qc_eq(r, *self),
    {
        QuorumCert {
            vote_data: self.vote_data,
            commit_info: self.commit_info,
            signers: dup_authors(&self.signers),
        }
    }
}

impl QuorumCert {
    /// The block this certificate certifies.
    pub open spec fn certified(self) -> BlockInfo {
        self.vote_data.proposed
    }

    /// The parent of the certified block.
    pub open spec fn parent(self) -> BlockInfo {
        self.vote_data.parent
    }

    /// The round of the committed block, or 0 when the certificate commits
    /// nothing.
    pub open spec fn spec_commit_round(self) -> Round {
        match self.commit_info {
            Some(c) => c.round,
            None => 0,
        }
    }

    pub fn certified_block(&self) -> (r: BlockInfo)
        ensures
            r == self.certified(),
    {
        self.vote_data.proposed
    }

    pub fn parent_block(&self) -> (r: BlockInfo)
        ensures
            r == self.parent(),
    {
        self.vote_data.parent
    }

    pub fn commit_round(&self) -> (r: Round)
        ensures
            r == self.spec_commit_round(),
    {
        match self.commit_info {
            Some(c) => c.round,
            None => 0,
        }
    }

    /// What a verified certificate promises: its vote data is well formed and
    /// its signers carry a quorum. The certificate of the genesis block (round
    /// 0) carries no signatures and is accepted on structure alone.
    pub open spec fn spec_verified(self, verifier: ValidatorVerifier) -> bool {
        if self.certified().round == 0 {
            self.commit_info is None
        } else {
            &&& self.vote_data.wf()
            &&& verifier.spec_has_quorum(self.signers@.to_set())
            &&& match self.commit_info {
                Some(c) => c.round < self.parent().round || c == self.parent(),
                None => true,
            }
        }
    }

    /// Checks the certificate under the epoch's validator set.
    pub fn verify(&self, verifier: &ValidatorVerifier) -> (r: bool)
        requires
            verifier.wf(),
        ensures
            r == self.spec_verified(*verifier),
    {
        if self.vote_data.proposed.round == 0 {
            return self.commit_info.is_none();
        }
        let data_ok = self.vote_data.proposed.round > self.vote_data.parent.round
            && self.vote_data.proposed.epoch == self.vote_data.parent.epoch
            && self.vote_data.proposed.timestamp_usecs >= self.vote_data.parent.timestamp_usecs;
        let commit_ok = match self.commit_info {
            Some(c) => c.round < self.vote_data.parent.round || (c == self.vote_data.parent),
            None => true,
        };
        data_ok && commit_ok && verifier.check_voting_power(&self.signers)
    }
}

/// A certificate of a quorum of timeout signatures for one round.
#[derive(Debug)]
pub struct TimeoutCertificate {
    pub epoch: u64,
    pub round: Round,
    pub signers: Vec<Author>,
}

/// Value equality of timeout certificates.
pub open spec fn tc_eq(a: TimeoutCertificate, b: TimeoutCertificate) -> bool {
    &&& a.epoch == b.epoch
    &&& a.round == b.round
    &&& a.signers@ == b.signers@
}

impl Clone for TimeoutCertificate {
    fn clone(&self) -> (r: Self)
        ensures
            tc_eq(r, *self),
    {
        TimeoutCertificate {
            epoch: self.epoch,
            round: self.round,
            signers: dup_authors(&self.signers),
        }
    }
}

impl TimeoutCertificate {
    pub open spec fn spec_verified(self, verifier: ValidatorVerifier) -> bool {
        verifier.spec_has_quorum(self.signers@.to_set())
    }

    pub fn verify(&self, verifier: &ValidatorVerifier) -> (r: bool)
        requires
            verifier.wf(),
        ensures
            r == self.spec_verified(*verifier),
    {
        verifier.check_voting_power(&self.signers)
    }
}

/// What a timeout signature signs: a round of an epoch.
#[derive(Clone, Copy, PartialEq, Eq, Structural, Debug)]
pub struct Timeout {
    pub epoch: u64,
    pub round: Round,
}

/// A signature over a timeout, modelled by its author.
#[derive(Clone, Copy, PartialEq, Eq, Structural, Debug)]
pub struct Signature {
    pub author: Author,
}

/// One replica's vote for a proposed block, with an optional timeout
/// signature that lets the vote count toward a timeout certificate as well.
#[derive(Clone, Copy, PartialEq, Eq, Structural, Debug)]
pub struct Vote {
    pub author: Author,
    pub vote_data: VoteData,
    /// The block the 3-chain rule would commit if this vote gathers a quorum.
    pub commit_info: Option<BlockInfo>,
    pub timeout_signature: Option<Signature>,
}

impl Vote {
    pub open spec fn spec_round(self) -> Round {
        self.vote_data.proposed.round
    }

    pub open spec fn spec_epoch(self) -> u64 {
        self.vote_data.proposed.epoch
    }

    pub open spec fn spec_is_timeout(self) -> bool {
        self.timeout_signature is Some
    }

    pub fn round(&self) -> (r: Round)
        ensures
            r == self.spec_round(),
    {
        self.vote_data.proposed.round
    }

    pub fn epoch(&self) -> (r: u64)
        ensures
            r == self.spec_epoch(),
    {
        self.vote_data.proposed.epoch
    }

    /// Whether the vote carries a timeout signature.
    pub fn is_timeout(&self) -> (r: bool)
        ensures
            r == self.spec_is_timeout(),
    {
        self.timeout_signature.is_some()
    }

    /// The timeout this vote would sign.
    pub fn timeout(&self) -> (r: Timeout)
        ensures
            r == (Timeout { epoch: self.spec_epoch(), round: self.spec_round() }),
    {
        Timeout { epoch: self.vote_data.proposed.epoch, round: self.vote_data.proposed.round }
    }

    /// Stamps the vote with a timeout signature.
    pub fn add_timeout_signature(&mut self, signature: Signature)
        ensures
            *final(self) == (Vote { timeout_signature: Some(signature), ..*old(self) }),
    {
        self.timeout_signature = Some(signature);
    }

    /// A vote verifies when its author is a validator and its data is well
    /// formed.
    pub open spec fn spec_verified(self, verifier: ValidatorVerifier) -> bool {
        &&& verifier.spec_is_validator(self.author)
        &&& self.vote_data.wf()
    }

    pub fn verify(&self, verifier: &ValidatorVerifier) -> (r: bool)
        ensures
            r == self.spec_verified(*verifier),
    {
        verifier.is_validator(self.author) && self.vote_data.proposed.round
            > self.vote_data.parent.round && self.vote_data.proposed.epoch
            == self.vote_data.parent.epoch && self.vote_data.proposed.timestamp_usecs
            >= self.vote_data.parent.timestamp_usecs
    }
}

/// A replica's best known progress: highest quorum certificate, highest
/// commit certificate, and the highest timeout certificate if one formed.
#[derive(Debug)]
pub struct SyncInfo {
    pub highest_quorum_cert: QuorumCert,
    pub highest_commit_cert: QuorumCert,
    pub highest_timeout_cert: Option<TimeoutCertificate>,
}

/// Value equality of sync snapshots.
pub open spec fn sync_info_eq(a: SyncInfo, b: SyncInfo) -> bool {
    &&& qc_eq(a.highest_quorum_cert, b.highest_quorum_cert)
    &&& qc_eq(a.highest_commit_cert, b.highest_commit_cert)
    &&& match (a.highest_timeout_cert, b.highest_timeout_cert) {
        (Some(x), Some(y)) => tc_eq(x, y),
        (None, None) => true,
        _ => false,
    }
}

impl Clone for SyncInfo {
    fn clone(&self) -> (r: Self)
        ensures
            sync_info_eq(r, *self),
    {
        SyncInfo {
            highest_quorum_cert: self.highest_quorum_cert.clone(),
            highest_commit_cert: self.highest_commit_cert.clone(),
            highest_timeout_cert: match &self.highest_timeout_cert {
                Some(tc) => Some(tc.clone()),
                None => None,
            },
        }
    }
}

impl SyncInfo {
    pub open spec fn spec_epoch(self) -> u64 {
        self.highest_quorum_cert.certified().epoch
    }

    /// The round of the highest timeout certificate, or 0 without one.
    pub open spec fn spec_timeout_round(self) -> Round {
        match self.highest_timeout_cert {
            Some(tc) => tc.round,
            None => 0,
        }
    }

    /// The highest round either certificate speaks for.
    pub open spec fn spec_highest_round(self) -> Round {
        max64(self.highest_quorum_cert.certified().round, self.spec_timeout_round())
    }

    /// The round of the committed block the commit certificate carries.
    pub open spec fn spec_commit_round(self) -> Round {
        self.highest_commit_cert.spec_commit_round()
    }

    pub fn epoch(&self) -> (r: u64)
        ensures
            r == self.spec_epoch(),
    {
        self.highest_quorum_cert.vote_data.proposed.epoch
    }

    pub fn highest_round(&self) -> (r: Round)
        ensures
            r == self.spec_highest_round(),
    {
        let tc_round = match &self.highest_timeout_cert {
            Some(tc) => tc.round,
            None => 0,
        };
        let qc_round = self.highest_quorum_cert.vote_data.proposed.round;
        if qc_round >= tc_round {
            qc_round
        } else {
            tc_round
        }
    }

    pub fn commit_round(&self) -> (r: Round)
        ensures
            r == self.spec_commit_round(),
    {
        self.highest_commit_cert.commit_round()
    }

    /// A strict order on progress: newer when any of the certified round, the
    /// timeout round or the committed round is strictly higher.
    pub open spec fn spec_has_newer_certificates(self, other: SyncInfo) -> bool {
        ||| self.highest_quorum_cert.certified().round > other.highest_quorum_cert.certified().round
        ||| self.spec_timeout_round() > other.spec_timeout_round()
        ||| self.spec_commit_round() > other.spec_commit_round()
    }

    pub fn has_newer_certificates(&self, other: &SyncInfo) -> (r: bool)
        ensures
            r == self.spec_has_newer_certificates(*other),
    {
        self.highest_quorum_cert.vote_data.proposed.round
            > other.highest_quorum_cert.vote_data.proposed.round || self.timeout_round()
            > other.timeout_round() || self.commit_round() > other.commit_round()
    }

    pub fn timeout_round(&self) -> (r: Round)
        ensures
            r == self.spec_timeout_round(),
    {
        match &self.highest_timeout_cert {
            Some(tc) => tc.round,
            None => 0,
        }
    }

    /// What a verified snapshot promises: both certificates and the timeout
    /// certificate verify, all in one epoch, the commit certificate does not
    /// outrun the quorum certificate, and a timeout certificate is only as
    /// old as the quorum certificate.
    pub open spec fn spec_verified(self, verifier: ValidatorVerifier) -> bool {
        &&& self.highest_quorum_cert.spec_verified(verifier)
        &&& self.highest_commit_cert.spec_verified(verifier)
        &&& self.highest_commit_cert.certified().epoch == self.spec_epoch()
        &&& self.highest_commit_cert.certified().round
            <= self.highest_quorum_cert.certified().round
        &&& match self.highest_timeout_cert {
            Some(tc) => tc.epoch == self.spec_epoch() && tc.round
                >= self.highest_quorum_cert.certified().round && tc.spec_verified(verifier),
            None => true,
        }
    }

    pub fn verify(&self, verifier: &ValidatorVerifier) -> (r: bool)
        requires
            verifier.wf(),
        ensures
            r == self.spec_verified(*verifier),
    {
        let epoch = self.epoch();
        let tc_ok = match &self.highest_timeout_cert {
            Some(tc) => tc.epoch == epoch && tc.round
                >= self.highest_quorum_cert.vote_data.proposed.round && tc.verify(verifier),
            None => true,
        };
        self.highest_quorum_cert.verify(verifier) && self.highest_commit_cert.verify(verifier)
            && self.highest_commit_cert.vote_data.proposed.epoch == epoch
            && self.highest_commit_cert.vote_data.proposed.round
            <= self.highest_quorum_cert.vote_data.proposed.round && tc_ok
    }
}

/// The larger of two rounds.
pub open spec fn max64(a: u64, b: u64) -> u64 {
    if a >= b {
        a
    } else {
        b
    }
}

/// A transaction as admitted to the pool and carried in block payloads. The
/// signature and program are modelled by plain values.
#[derive(Clone, Copy, PartialEq, Eq, Structural, Debug)]
pub struct SignedTransaction {
    pub sender: Author,
    pub sequence_number: u64,
    pub gas_unit_price: u64,
    /// Client-chosen expiration, in seconds, for expiry by block time.
    pub expiration_time_secs: u64,
    /// Stands in for the transaction's program and arguments.
    pub payload_id: u64,
}

/// Copies a payload vector.
pub fn dup_txns(v: &Vec<SignedTransaction>) -> (r: Vec<SignedTransaction>)
    ensures
        r@ == v@,
{
    let mut r: Vec<SignedTransaction> = Vec::new();
    let mut i: usize = 0;
    while i < v.len()
        invariant
            i <= v@.len(),
            r@ == v@.take(i as int),
        decreases v@.len() - i,
    {
        r.push(v[i]);
        proof {
            assert(r@ =~= v@.take(i + 1));
        }
        i += 1;
    }
    proof {
        assert(v@.take(v@.len() as int) =~= v@);
    }
    r
}

/// A proposed block. Its parent is the block certified by the quorum
/// certificate it carries. A NIL block has no author and an empty payload.
#[derive(Debug)]
pub struct Block {
    /// Stands in for the hash of the remaining fields.
    pub id: BlockId,
    pub epoch: u64,
    pub round: Round,
    pub timestamp_usecs: u64,
    /// Certifies the parent and justifies proposing at this round.
    pub quorum_cert: QuorumCert,
    /// The elected proposer, or none for a NIL or genesis block.
    pub author: Option<Author>,
    pub payload: Vec<SignedTransaction>,
}

/// Value equality of blocks.
pub open spec fn block_eq(a: Block, b: Block) -> bool {
    &&& a.id == b.id
    &&& a.epoch == b.epoch
    &&& a.round == b.round
    &&& a.timestamp_usecs == b.timestamp_usecs
    &&& qc_eq(a.quorum_cert, b.quorum_cert)
    &&& a.author == b.author
    &&& a.payload@ == b.payload@
}

impl Clone for Block {
    fn clone(&self) -> (r: Self)
        ensures
            block_eq(r, *self),
    {
        Block {
            id: self.id,
            epoch: self.epoch,
            round: self.round,
            timestamp_usecs: self.timestamp_usecs,
            quorum_cert: self.quorum_cert.clone(),
            author: self.author,
            payload: dup_txns(&self.payload),
        }
    }
}

impl Block {
    pub open spec fn spec_parent_id(self) -> BlockId {
        self.quorum_cert.certified().id
    }

    pub open spec fn spec_parent_round(self) -> Round {
        self.quorum_cert.certified().round
    }

    /// The identifying data of this block as certificates will carry it.
    pub open spec fn spec_info(self) -> BlockInfo {
        BlockInfo {
            id: self.id,
            epoch: self.epoch,
            round: self.round,
            timestamp_usecs: self.timestamp_usecs,
        }
    }

    /// A block extends its parent into a strictly later round of the same
    /// epoch and does not move its timestamp backwards. The genesis block of
    /// an epoch, at round 0, stands for itself: its certificate carries its
    /// own identifying data.
    pub open spec fn wf(self) -> bool {
        if self.round == 0 {
            self.quorum_cert.certified() == self.spec_info()
        } else {
            &&& self.round > self.spec_parent_round()
            &&& self.epoch == self.quorum_cert.certified().epoch
            &&& self.timestamp_usecs >= self.quorum_cert.certified().timestamp_usecs
        }
    }

    pub fn parent_id(&self) -> (r: BlockId)
        ensures
            r == self.spec_parent_id(),
    {
        self.quorum_cert.vote_data.proposed.id
    }

    pub fn info(&self) -> (r: BlockInfo)
        ensures
            r == self.spec_info(),
    {
        BlockInfo {
            id: self.id,
            epoch: self.epoch,
            round: self.round,
            timestamp_usecs: self.timestamp_usecs,
        }
    }

    pub fn check_well_formed(&self) -> (r: bool)
        ensures
            r == self.wf(),
    {
        if self.round == 0 {
            self.quorum_cert.certified_block() == self.info()
        } else {
            self.round > self.quorum_cert.vote_data.proposed.round && self.epoch
                == self.quorum_cert.vote_data.proposed.epoch && self.timestamp_usecs
                >= self.quorum_cert.vote_data.proposed.timestamp_usecs
        }
    }
}

/// A proposal as broadcast by the round's leader.
#[derive(Debug)]
pub struct ProposalMsg {
    pub proposal: Block,
    pub sync_info: SyncInfo,
}

/// Value equality of proposal messages.
pub open spec fn proposal_msg_eq(a: ProposalMsg, b: ProposalMsg) -> bool {
    &&& block_eq(a.proposal, b.proposal)
    &&& sync_info_eq(a.sync_info, b.sync_info)
}

impl Clone for ProposalMsg {
    fn clone(&self) -> (r: Self)
        ensures
            proposal_msg_eq(r, *self),
    {
        ProposalMsg { proposal: self.proposal.clone(), sync_info: self.sync_info.clone() }
    }
}

impl ProposalMsg {
    pub open spec fn spec_round(self) -> Round {
        self.proposal.round
    }

    pub open spec fn spec_epoch(self) -> u64 {
        self.proposal.epoch
    }

    pub fn round(&self) -> (r: Round)
        ensures
            r == self.spec_round(),
    {
        self.proposal.round
    }

    pub fn epoch(&self) -> (r: u64)
        ensures
            r == self.spec_epoch(),
    {
        self.proposal.epoch
    }

    /// A verified proposal carries an author from the validator set, is well
    /// formed, is justified by the certificates it brings (the round right
    /// before it holds a quorum or timeout certificate), and its sync
    /// snapshot verifies.
    pub open spec fn spec_verified(self, verifier: ValidatorVerifier) -> bool {
        &&& self.proposal.author is Some
        &&& verifier.spec_is_validator(self.proposal.author->0)
        &&& self.proposal.wf()
        &&& self.proposal.round > 0
        &&& self.sync_info.spec_verified(verifier)
        &&& qc_eq(self.proposal.quorum_cert, self.sync_info.highest_quorum_cert)
        &&& max64(self.proposal.spec_parent_round(), self.sync_info.spec_timeout_round())
            + 1 == self.proposal.round
    }

    pub fn verify(&self, verifier: &ValidatorVerifier) -> (r: bool)
        requires
            verifier.wf(),
        ensures
            r == self.spec_verified(*verifier),
    {
        let author_ok = match self.proposal.author {
            Some(a) => verifier.is_validator(a),
            None => false,
        };
        let parent_round = self.proposal.quorum_cert.vote_data.proposed.round;
        let tc_round = self.sync_info.timeout_round();
        let justified = {
            let m = if parent_round >= tc_round {
                parent_round
            } else {
                tc_round
            };
            m < u64::MAX && m + 1 == self.proposal.round
        };
        author_ok && self.proposal.check_well_formed() && self.proposal.round > 0
            && self.sync_info.verify(verifier) && qc_eq_exec(
            &self.proposal.quorum_cert,
            &self.sync_info.highest_quorum_cert,
        ) && justified
    }
}

/// Compares two quorum certificates by value.
pub fn qc_eq_exec(a: &QuorumCert, b: &QuorumCert) -> (r: bool)
    ensures
        r == qc_eq(*a, *b),
{
    let signers_ok = if a.signers.len() != b.signers.len() {
        false
    } else {
        let mut i: usize = 0;
        let mut ok = true;
        while i < a.signers.len()
            invariant
                i <= a.signers@.len(),
                a.signers@.len() == b.signers@.len(),
                ok == (forall|k: int| 0 <= k < i ==> a.signers@[k] == b.signers@[k]),
            decreases a.signers@.len() - i,
        {
            if a.signers[i] != b.signers[i] {
                ok = false;
            }
            i += 1;
        }
        ok
    };
    proof {
        if signers_ok {
            assert(a.signers@ =~= b.signers@);
        }
    }
    a.vote_data == b.vote_data && a.commit_info == b.commit_info && signers_ok
}

/// A vote as sent to the next leader or broadcast on timeout.
#[derive(Debug)]
pub struct VoteMsg {
    pub vote: Vote,
    pub sync_info: SyncInfo,
}

/// Value equality of vote messages.
pub open spec fn vote_msg_eq(a: VoteMsg, b: VoteMsg) -> bool {
    &&& a.vote == b.vote
    &&& sync_info_eq(a.sync_info, b.sync_info)
}

impl Clone for VoteMsg {
    fn clone(&self) -> (r: Self)
        ensures
            vote_msg_eq(r, *self),
    {
        VoteMsg { vote: self.vote, sync_info: self.sync_info.clone() }
    }
}

impl VoteMsg {
    pub open spec fn spec_epoch(self) -> u64 {
        self.vote.spec_epoch()
    }

    pub fn epoch(&self) -> (r: u64)
        ensures
            r == self.spec_epoch(),
    {
        self.vote.vote_data.proposed.epoch
    }

    pub open spec fn spec_verified(self, verifier: ValidatorVerifier) -> bool {
        &&& self.vote.spec_verified(verifier)
        &&& self.sync_info.spec_verified(verifier)
    }

    pub fn verify(&self, verifier: &ValidatorVerifier) -> (r: bool)
        requires
            verifier.wf(),
        ensures
            r == self.spec_verified(*verifier),
    {
        self.vote.verify(verifier) && self.sync_info.verify(verifier)
    }
}

/// A request to pull `num_blocks` chained ancestors starting at `block_id`.
#[derive(Clone, Copy, PartialEq, Eq, Structural, Debug)]
pub struct BlockRetrievalRequest {
    pub block_id: BlockId,
    pub num_blocks: u64,
}

/// How a block-retrieval request ended.
#[derive(Clone, Copy, PartialEq, Eq, Structural, Debug)]
pub enum BlockRetrievalStatus {
    /// The full number of requested blocks is returned.
    Succeeded,
    /// The requested id itself is unknown; no blocks are returned.
    IdNotFound,
    /// The walk stopped at an unknown ancestor after at least one block.
    NotEnoughBlocks,
}

/// The chained blocks answering a retrieval request, child first.
#[derive(Debug)]
pub struct BlockRetrievalResponse {
    pub status: BlockRetrievalStatus,
    pub blocks: Vec<Block>,
}

} // verus!

