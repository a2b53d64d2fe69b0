//! The mempool: transactions indexed by (account, sequence number), served
//! to the proposer by fee priority, chained per account, garbage collected by
//! expiry, and replicated through a monotone timeline.

use vstd::prelude::*;

use crate::ttl_cache::TtlCache;
use crate::types::SignedTransaction;

verus! {

/// Identifies a transaction by account and sequence number.
#[derive(Clone, Copy, PartialEq, Eq, Structural, Debug)]
pub struct TxnPointer {
    pub address: u64,
    pub sequence_number: u64,
}

/// Whether a transaction is ready for pull-based replication, and under
/// which timeline id.
#[derive(Clone, Copy, PartialEq, Eq, Structural, Debug)]
pub enum TimelineState {
    /// Not yet chained to the account's committed sequence.
    NotReady,
    /// In the timeline under this id.
    Ready(u64),
    /// Never enters the timeline.
    NonQualified,
}

/// A transaction with the pool's metadata.
#[derive(Clone, Copy, PartialEq, Eq, Structural, Debug)]
pub struct MempoolTransaction {
    pub txn: SignedTransaction,
    /// System expiry, in seconds: admission time plus the pool's timeout.
    pub expiration_time_secs: u64,
    pub gas_amount: u64,
    pub ranking_score: u64,
    pub timeline_state: TimelineState,
    pub is_governance: bool,
}

/// The answer to an admission attempt.
#[derive(Clone, Copy, PartialEq, Eq, Structural, Debug)]
pub enum MempoolStatus {
    Accepted,
    /// The sequence number is below the account's current one.
    InvalidSeqNumber,
    /// The pool is at capacity and the transaction does not outrank the
    /// lowest-priority entry.
    MempoolIsFull,
    /// The same (account, sequence) is present with at least this rank.
    InvalidUpdate,
}

/// Which entries a sweep drops from the store.
#[derive(Clone, Copy, PartialEq, Eq, Structural, Debug)]
pub enum DropRule {
    /// Committed: drop the account's transactions below this sequence.
    SeqBelow { sender: u64, below: u64 },
    /// Rejected: drop the account's transactions at or above this sequence.
    SeqAtOrAbove { sender: u64, seq: u64 },
    /// Drop transactions whose system expiry lies before `now`.
    SystemTtl { now_secs: u64 },
    /// Drop transactions whose client expiry lies before the block time.
    ClientTtl { block_time_secs: u64 },
}

/// Whether a sweep under this rule drops the transaction.
pub open spec fn spec_drops(rule: DropRule, t: MempoolTransaction) -> bool {
    match rule {
        DropRule::SeqBelow { sender, below } => t.txn.sender == sender && t.txn.sequence_number
            < below,
        DropRule::SeqAtOrAbove { sender, seq } => t.txn.sender == sender && t.txn.sequence_number
            >= seq,
        DropRule::SystemTtl { now_secs } => t.expiration_time_secs < now_secs,
        DropRule::ClientTtl { block_time_secs } => t.txn.expiration_time_secs < block_time_secs,
    }
}

/// Computes [`spec_drops`].
pub fn drops(rule: &DropRule, t: &MempoolTransaction) -> (r: bool)
    ensures
        r == spec_drops(*rule, *t),
{
    match rule {
        DropRule::SeqBelow { sender, below } => t.txn.sender == *sender && t.txn.sequence_number
            < *below,
        DropRule::SeqAtOrAbove { sender, seq } => t.txn.sender == *sender && t.txn.sequence_number
            >= *seq,
        DropRule::SystemTtl { now_secs } => t.expiration_time_secs < *now_secs,
        DropRule::ClientTtl { block_time_secs } => t.txn.expiration_time_secs < *block_time_secs,
    }
}

/// Priority order for serving: higher gas price first, then higher rank,
/// ties broken by account and sequence number so the order is total.
pub open spec fn spec_prio_ge(a: MempoolTransaction, b: MempoolTransaction) -> bool {
    ||| a.txn.gas_unit_price > b.txn.gas_unit_price
    ||| (a.txn.gas_unit_price == b.txn.gas_unit_price && (a.ranking_score > b.ranking_score || (
    a.ranking_score == b.ranking_score && (a.txn.sender < b.txn.sender || (a.txn.sender
        == b.txn.sender && a.txn.sequence_number <= b.txn.sequence_number)))))
}

/// Computes [`spec_prio_ge`].
pub fn prio_ge(a: &MempoolTransaction, b: &MempoolTransaction) -> (r: bool)
    ensures
        r == spec_prio_ge(*a, *b),
{
    a.txn.gas_unit_price > b.txn.gas_unit_price || (a.txn.gas_unit_price == b.txn.gas_unit_price
        && (a.ranking_score > b.ranking_score || (a.ranking_score == b.ranking_score
        && (a.txn.sender < b.txn.sender || (a.txn.sender == b.txn.sender
        && a.txn.sequence_number <= b.txn.sequence_number)))))
}

/// The index of a minimal-priority entry.
fn find_min(txns: &Vec<MempoolTransaction>) -> (lo: usize)
    requires
        txns@.len() > 0,
    ensures
        lo < txns@.len(),
        spec_is_min(txns@, lo as int),
{
    let mut lo: usize = 0;
    let mut k: usize = 1;
    while k < txns.len()
        invariant
            txns@.len() > 0,
            lo < k <= txns@.len(),
            forall|j: int| 0 <= j < k ==> spec_prio_ge(#[trigger] txns@[j], txns@[lo as int]),
        decreases txns@.len() - k,
    {
        if prio_ge(&txns[lo], &txns[k]) {
            let ghost old_lo = lo as int;
            lo = k;
            proof {
                assert forall|j: int| 0 <= j < k + 1 implies spec_prio_ge(
                    #[trigger] txns@[j],
                    txns@[lo as int],
                ) by {
                    if j < k {
                        lemma_prio_ge_trans(txns@[j], txns@[old_lo], txns@[lo as int]);
                    }
                }
            }
        } else {
            proof {
                assert(spec_prio_ge(txns@[k as int], txns@[lo as int]));
            }
        }
        k += 1;
    }
    lo
}

/// The priority order is transitive.
pub proof fn lemma_prio_ge_trans(a: MempoolTransaction, b: MempoolTransaction, c: MempoolTransaction)
    requires
        spec_prio_ge(a, b),
        spec_prio_ge(b, c),
    ensures
        spec_prio_ge(a, c),
{
}

/// Whether every entry of the list strictly outranks `t`.
pub open spec fn spec_outranked_by_all(txns: Seq<MempoolTransaction>, t: MempoolTransaction) -> bool {
    forall|i: int| 0 <= i < txns.len() ==> !spec_prio_ge(t, #[trigger] txns[i])
}

/// Whether entry `i` has minimal priority in the list.
pub open spec fn spec_is_min(txns: Seq<MempoolTransaction>, i: int) -> bool {
    forall|j: int| 0 <= j < txns.len() ==> spec_prio_ge(#[trigger] txns[j], txns[i])
}

/// Whether the list descends in serving priority.
pub open spec fn spec_sorted(txns: Seq<MempoolTransaction>) -> bool {
    forall|i: int, j: int| 0 <= i < j < txns.len() ==> spec_prio_ge(
        #[trigger] txns[i],
        #[trigger] txns[j],
    )
}

/// The priority order is total.
pub proof fn lemma_prio_ge_total(a: MempoolTransaction, b: MempoolTransaction)
    ensures
        spec_prio_ge(a, b) || spec_prio_ge(b, a),
{
}

/// Removing an entry keeps the list sorted.
proof fn lemma_sorted_remove(
    pre: Seq<MempoolTransaction>,
    post: Seq<MempoolTransaction>,
    i: int,
)
    requires
        spec_sorted(pre),
        0 <= i < pre.len(),
        post == pre.remove(i),
    ensures
        spec_sorted(post),
{
    assert forall|a: int, b: int| 0 <= a < b < post.len() implies spec_prio_ge(
        #[trigger] post[a],
        #[trigger] post[b],
    ) by {
        let a2 = if a < i {
            a
        } else {
            a + 1
        };
        let b2 = if b < i {
            b
        } else {
            b + 1
        };
        assert(post[a] == pre[a2] && post[b] == pre[b2]);
    }
}

/// Inserting at the found position keeps the list sorted.
proof fn lemma_sorted_insert(
    pre: Seq<MempoolTransaction>,
    post: Seq<MempoolTransaction>,
    pos: int,
    x: MempoolTransaction,
)
    requires
        spec_sorted(pre),
        0 <= pos <= pre.len(),
        post == pre.insert(pos, x),
        forall|k: int| 0 <= k < pos ==> spec_prio_ge(#[trigger] pre[k], x),
        forall|k: int| pos <= k < pre.len() ==> spec_prio_ge(x, #[trigger] pre[k]),
    ensures
        spec_sorted(post),
{
    assert forall|a: int, b: int| 0 <= a < b < post.len() implies spec_prio_ge(
        #[trigger] post[a],
        #[trigger] post[b],
    ) by {
        if a != pos && b != pos {
            let a2 = if a < pos {
                a
            } else {
                a - 1
            };
            let b2 = if b < pos {
                b
            } else {
                b - 1
            };
            assert(post[a] == pre[a2] && post[b] == pre[b2]);
        } else if a == pos {
            assert(post[b] == pre[b - 1]);
        } else {
            assert(post[a] == pre[a]);
        }
    }
}

/// Entries that agree on everything but the timeline state compare alike,
/// so promotion keeps the list sorted.
proof fn lemma_sorted_same_keys(a: Seq<MempoolTransaction>, b: Seq<MempoolTransaction>)
    requires
        a.len() == b.len(),
        forall|i: int| 0 <= i < b.len() ==> spec_same_up_to_timeline(#[trigger] b[i], a[i]),
        spec_sorted(a),
    ensures
        spec_sorted(b),
{
    assert forall|i: int, j: int| 0 <= i < j < b.len() implies spec_prio_ge(
        #[trigger] b[i],
        #[trigger] b[j],
    ) by {
        assert(spec_prio_ge(a[i], a[j]));
    }
}

/// Equality of pool entries up to timeline promotion: all fields agree, and
/// the timeline state is unchanged or was promoted from not-ready into the
/// timeline.
pub open spec fn spec_same_up_to_timeline(x: MempoolTransaction, y: MempoolTransaction) -> bool {
    &&& x.txn == y.txn
    &&& x.expiration_time_secs == y.expiration_time_secs
    &&& x.gas_amount == y.gas_amount
    &&& x.ranking_score == y.ranking_score
    &&& x.is_governance == y.is_governance
    &&& (x.timeline_state == y.timeline_state || (y.timeline_state == TimelineState::NotReady
        && x.timeline_state matches TimelineState::Ready(_)))
}

/// The pool's transactions, held in serving (priority) order, with the
/// append-only replication timeline.
#[derive(Debug)]
pub struct TransactionStore {
    pub txns: Vec<MempoolTransaction>,
    /// Timeline id `i + 1` maps to `timeline[i]`.
    pub timeline: Vec<TxnPointer>,
    pub capacity: usize,
}

impl TransactionStore {
    /// At most one transaction per (account, sequence), within capacity,
    /// held in descending serving priority.
    pub open spec fn wf(self) -> bool {
        &&& forall|i: int, j: int|
            0 <= i < j < self.txns@.len() ==> !(self.txns@[i].txn.sender
                == self.txns@[j].txn.sender && self.txns@[i].txn.sequence_number
                == self.txns@[j].txn.sequence_number)
        &&& spec_sorted(self.txns@)
        &&& self.txns@.len() <= self.capacity
        &&& self.capacity >= 1
    }

    pub open spec fn spec_has_txn(self, address: u64, sequence_number: u64) -> bool {
        exists|i: int|
            0 <= i < self.txns@.len() && (#[trigger] self.txns@[i]).txn.sender == address
                && self.txns@[i].txn.sequence_number == sequence_number
    }

    pub open spec fn spec_index_of(self, address: u64, sequence_number: u64) -> int {
        choose|i: int|
            0 <= i < self.txns@.len() && (#[trigger] self.txns@[i]).txn.sender == address
                && self.txns@[i].txn.sequence_number == sequence_number
    }

    pub open spec fn spec_txn(self, address: u64, sequence_number: u64) -> MempoolTransaction {
        self.txns@[self.spec_index_of(address, sequence_number)]
    }

    pub fn new(capacity: usize) -> (r: TransactionStore)
        requires
            capacity >= 1,
        ensures
            r.wf(),
            r.txns@.len() == 0,
            r.timeline@.len() == 0,
            r.capacity == capacity,
    {
        TransactionStore { txns: Vec::new(), timeline: Vec::new(), capacity }
    }

    /// The index of the transaction of this account and sequence.
    fn find(&self, address: u64, sequence_number: u64) -> (r: Option<usize>)
        requires
            self.wf(),
        ensures
            r is Some <==> self.spec_has_txn(address, sequence_number),
            r matches Some(i) ==> i < self.txns@.len() && i as int == self.spec_index_of(
                address,
                sequence_number,
            ) && self.txns@[i as int].txn.sender == address
                && self.txns@[i as int].txn.sequence_number == sequence_number,
    {
        let mut i: usize = 0;
        while i < self.txns.len()
            invariant
                self.wf(),
                i <= self.txns@.len(),
                forall|k: int|
                    0 <= k < i ==> !((#[trigger] self.txns@[k]).txn.sender == address
                        && self.txns@[k].txn.sequence_number == sequence_number),
            decreases self.txns@.len() - i,
        {
            if self.txns[i].txn.sender == address && self.txns[i].txn.sequence_number
                == sequence_number {
                proof {
                    let j = self.spec_index_of(address, sequence_number);
                    assert(self.txns@[j].txn.sender == address && self.txns@[j].txn.sequence_number
                        == sequence_number);
                    if j < i as int {
                        assert(!(self.txns@[j].txn.sender == self.txns@[i as int].txn.sender
                            && self.txns@[j].txn.sequence_number
                            == self.txns@[i as int].txn.sequence_number));
                    }
                    if (i as int) < j {
                        assert(!(self.txns@[i as int].txn.sender == self.txns@[j].txn.sender
                            && self.txns@[i as int].txn.sequence_number
                            == self.txns@[j].txn.sequence_number));
                    }
                }
                return Some(i);
            }
            i += 1;
        }
        None
    }

    /// The stored transaction of this account and sequence.
    pub fn get(&self, address: u64, sequence_number: u64) -> (r: Option<SignedTransaction>)
        requires
            self.wf(),
        ensures
            r is Some <==> self.spec_has_txn(address, sequence_number),
            r matches Some(t) ==> t == self.spec_txn(address, sequence_number).txn && t.sender
                == address && t.sequence_number == sequence_number,
    {
        match self.find(address, sequence_number) {
            Some(i) => Some(self.txns[i].txn),
            None => None,
        }
    }

    /// Drops every transaction the rule condemns, keeping the rest.
    pub fn sweep(&mut self, rule: DropRule)
        requires
            old(self).wf(),
        ensures
            final(self).wf(),
            final(self).capacity == old(self).capacity,
            final(self).timeline@ == old(self).timeline@,
            forall|i: int|
                0 <= i < final(self).txns@.len() ==> !spec_drops(
                    rule,
                    #[trigger] final(self).txns@[i],
                ),
            forall|i: int|
                0 <= i < final(self).txns@.len() ==> old(self).txns@.contains(
                    #[trigger] final(self).txns@[i],
                ),
            forall|i: int|
                0 <= i < old(self).txns@.len() && !spec_drops(rule, #[trigger] old(self).txns@[i])
                    ==> final(self).txns@.contains(old(self).txns@[i]),
    {
        let ghost pre = *self;
        let mut kept: Vec<MempoolTransaction> = Vec::new();
        let mut i: usize = 0;
        while i < self.txns.len()
            invariant
                i <= self.txns@.len(),
                *self == pre,
                pre.wf(),
                kept@.len() <= i,
                forall|a: int| 0 <= a < kept@.len() ==> !spec_drops(rule, #[trigger] kept@[a]),
                forall|a: int|
                    0 <= a < kept@.len() ==> exists|o: int|
                        0 <= o < i && pre.txns@[o] == #[trigger] kept@[a],
                forall|a: int, b: int|
                    0 <= a < b < kept@.len() ==> !(kept@[a].txn.sender == kept@[b].txn.sender
                        && kept@[a].txn.sequence_number == kept@[b].txn.sequence_number),
                spec_sorted(kept@),
                forall|o: int|
                    0 <= o < i && !spec_drops(rule, #[trigger] pre.txns@[o]) ==> kept@.contains(
                        pre.txns@[o],
                    ),
            decreases self.txns@.len() - i,
        {
            if !drops(&rule, &self.txns[i]) {
                let ghost k0 = kept@;
                kept.push(self.txns[i]);
                proof {
                    assert(kept@[kept@.len() - 1] == pre.txns@[i as int]);
                    assert forall|a: int, b: int|
                        0 <= a < b < kept@.len() implies !(kept@[a].txn.sender
                        == kept@[b].txn.sender && kept@[a].txn.sequence_number
                        == kept@[b].txn.sequence_number) by {
                        if b == kept@.len() - 1 {
                            let oa = choose|o: int| 0 <= o < i && pre.txns@[o] == k0[a];
                            assert(!(pre.txns@[oa].txn.sender == pre.txns@[i as int].txn.sender
                                && pre.txns@[oa].txn.sequence_number
                                == pre.txns@[i as int].txn.sequence_number));
                        }
                    }
                    assert forall|a: int, b: int| 0 <= a < b < kept@.len() implies spec_prio_ge(
                        #[trigger] kept@[a],
                        #[trigger] kept@[b],
                    ) by {
                        if b == kept@.len() - 1 {
                            let oa = choose|o: int| 0 <= o < i && pre.txns@[o] == k0[a];
                            assert(spec_prio_ge(pre.txns@[oa], pre.txns@[i as int]));
                        } else {
                            assert(spec_prio_ge(k0[a], k0[b]));
                        }
                    }
                    assert forall|o: int|
                        0 <= o < i + 1 && !spec_drops(rule, #[trigger] pre.txns@[o]) implies kept@.contains(
                        pre.txns@[o],
                    ) by {
                        if o == i as int {
                            assert(kept@[kept@.len() - 1] == pre.txns@[o]);
                        } else {
                            let w = choose|w: int| 0 <= w < k0.len() && k0[w] == pre.txns@[o];
                            assert(kept@[w] == pre.txns@[o]);
                        }
                    }
                }
            }
            i += 1;
        }
        self.txns = kept;
    }

    /// Inserts a transaction at its priority position.
    ///
    /// An entry already present for the same (account, sequence) is replaced
    /// only by a strictly higher rank; otherwise the update is refused. At
    /// capacity, the lowest-priority entry is evicted if the newcomer
    /// outranks it; the pool reports full exactly when every present entry
    /// outranks the newcomer. Admission is owed in every other case.
    /// Afterwards, transactions of the account chained consecutively from
    /// `cached_sequence_number` enter the replication timeline.
    #[verifier::rlimit(100)]
    pub fn insert(&mut self, txn_info: MempoolTransaction, cached_sequence_number: u64) -> (r:
        MempoolStatus)
        requires
            old(self).wf(),
        ensures
            final(self).wf(),
            final(self).capacity == old(self).capacity,
            r == MempoolStatus::InvalidUpdate <==> old(self).spec_has_txn(
                txn_info.txn.sender,
                txn_info.txn.sequence_number,
            ) && old(self).spec_txn(
                txn_info.txn.sender,
                txn_info.txn.sequence_number,
            ).ranking_score >= txn_info.ranking_score,
            r == MempoolStatus::MempoolIsFull <==> !old(self).spec_has_txn(
                txn_info.txn.sender,
                txn_info.txn.sequence_number,
            ) && old(self).txns@.len() >= old(self).capacity && spec_outranked_by_all(
                old(self).txns@,
                txn_info,
            ),
            r == MempoolStatus::MempoolIsFull || r == MempoolStatus::InvalidUpdate || r
                == MempoolStatus::Accepted,
            r != MempoolStatus::Accepted ==> final(self).txns@ == old(self).txns@ && final(self).timeline@ == old(self).timeline@,
            r == MempoolStatus::Accepted ==> final(self).spec_has_txn(
                txn_info.txn.sender,
                txn_info.txn.sequence_number,
            ) && spec_same_up_to_timeline(
                final(self).spec_txn(txn_info.txn.sender, txn_info.txn.sequence_number),
                txn_info,
            ),
            r == MempoolStatus::Accepted ==> forall|i: int|
                0 <= i < old(self).txns@.len() && !((#[trigger] old(self).txns@[i]).txn.sender
                    == txn_info.txn.sender && old(self).txns@[i].txn.sequence_number
                    == txn_info.txn.sequence_number) && !(old(self).txns@.len() >= old(self).capacity && !old(self).spec_has_txn(
                    txn_info.txn.sender,
                    txn_info.txn.sequence_number,
                ) && spec_is_min(old(self).txns@, i)) ==> final(self).spec_has_txn(
                    old(self).txns@[i].txn.sender,
                    old(self).txns@[i].txn.sequence_number,
                ) && spec_same_up_to_timeline(
                    final(self).spec_txn(
                        old(self).txns@[i].txn.sender,
                        old(self).txns@[i].txn.sequence_number,
                    ),
                    old(self).txns@[i],
                ),
            // Nothing appears from nowhere: every entry afterwards is the
            // admitted one or an old entry, up to timeline promotion.
            forall|i: int|
                0 <= i < final(self).txns@.len() ==> spec_same_up_to_timeline(
                    #[trigger] final(self).txns@[i],
                    txn_info,
                ) || exists|j: int|
                    0 <= j < old(self).txns@.len() && spec_same_up_to_timeline(
                        final(self).txns@[i],
                        old(self).txns@[j],
                    ),
    {
        let address = txn_info.txn.sender;
        let sequence_number = txn_info.txn.sequence_number;
        let ghost orig = *self;
        let mut replaced = false;
        match self.find(address, sequence_number) {
            Some(i) => {
                if self.txns[i].ranking_score >= txn_info.ranking_score {
                    return MempoolStatus::InvalidUpdate;
                }
                replaced = true;
                let ghost pre = *self;
                let _ = self.txns.remove(i);
                proof {
                    lemma_txns_remove_unique(pre.txns@, self.txns@, i as int);
                    lemma_txns_remove_membership(pre.txns@, self.txns@, i as int);
                    lemma_sorted_remove(pre.txns@, self.txns@, i as int);
                }
            },
            None => {},
        }
        if self.txns.len() >= self.capacity {
            proof {
                // A replacement shrank the list below capacity, so reaching
                // capacity here means nothing was replaced.
                assert(!replaced);
                assert(self.txns@ == orig.txns@);
            }
            // Find the lowest-priority entry.
            let lo = find_min(&self.txns);
            if !prio_ge(&txn_info, &self.txns[lo]) {
                proof {
                    // The minimum outranks the newcomer, hence so does every
                    // entry.
                    assert forall|i: int|
                        0 <= i < orig.txns@.len() implies !spec_prio_ge(
                        txn_info,
                        #[trigger] orig.txns@[i],
                    ) by {
                        if spec_prio_ge(txn_info, orig.txns@[i]) {
                            lemma_prio_ge_trans(
                                txn_info,
                                orig.txns@[i],
                                orig.txns@[lo as int],
                            );
                        }
                    }
                }
                return MempoolStatus::MempoolIsFull;
            }
            let ghost pre2 = *self;
            let _ = self.txns.remove(lo);
            proof {
                lemma_txns_remove_unique(pre2.txns@, self.txns@, lo as int);
                lemma_txns_remove_membership(pre2.txns@, self.txns@, lo as int);
                lemma_sorted_remove(pre2.txns@, self.txns@, lo as int);
            }
        }
        // Find the priority position and insert there.
        let mut pos: usize = 0;
        while pos < self.txns.len() && prio_ge(&self.txns[pos], &txn_info)
            invariant
                pos <= self.txns@.len(),
                forall|k: int| 0 <= k < pos ==> spec_prio_ge(#[trigger] self.txns@[k], txn_info),
            decreases self.txns@.len() - pos,
        {
            pos += 1;
        }
        let ghost pre3 = *self;
        self.txns.insert(pos, txn_info);
        proof {
            assert(self.txns@[pos as int] == txn_info);
            lemma_txns_insert_membership(pre3.txns@, self.txns@, pos as int, txn_info);
            assert forall|k: int| pos <= k < pre3.txns@.len() implies spec_prio_ge(
                txn_info,
                #[trigger] pre3.txns@[k],
            ) by {
                lemma_prio_ge_total(txn_info, pre3.txns@[pos as int]);
                if k > pos {
                    lemma_prio_ge_trans(txn_info, pre3.txns@[pos as int], pre3.txns@[k]);
                }
            }
            lemma_sorted_insert(pre3.txns@, self.txns@, pos as int, txn_info);
            assert forall|a: int, b: int|
                0 <= a < b < self.txns@.len() implies !(self.txns@[a].txn.sender
                == self.txns@[b].txn.sender && self.txns@[a].txn.sequence_number
                == self.txns@[b].txn.sequence_number) by {
                let p = pos as int;
                if a != p && b != p {
                    let a0 = if a < p {
                        a
                    } else {
                        a - 1
                    };
                    let b0 = if b < p {
                        b
                    } else {
                        b - 1
                    };
                    assert(self.txns@[a] == pre3.txns@[a0]);
                    assert(self.txns@[b] == pre3.txns@[b0]);
                } else if a == p {
                    let b0 = b - 1;
                    assert(self.txns@[b] == pre3.txns@[b0]);
                    assert(!pre3.spec_has_txn(address, sequence_number));
                } else {
                    let a0 = a;
                    assert(self.txns@[a] == pre3.txns@[a0]);
                    assert(!pre3.spec_has_txn(address, sequence_number));
                }
            }
            let j = self.spec_index_of(address, sequence_number);
            assert(self.txns@[j].txn.sender == address);
            if j < pos as int {
                assert(!(self.txns@[j].txn.sender == self.txns@[pos as int].txn.sender
                    && self.txns@[j].txn.sequence_number
                    == self.txns@[pos as int].txn.sequence_number));
            }
            if (pos as int) < j {
                assert(!(self.txns@[pos as int].txn.sender == self.txns@[j].txn.sender
                    && self.txns@[pos as int].txn.sequence_number
                    == self.txns@[j].txn.sequence_number));
            }
            assert(j == pos as int);
        }
        let ghost pre4 = *self;
        self.process_ready(address, cached_sequence_number);
        proof {
            let post = *self;
            // The new entry sits where it was inserted, up to promotion.
            assert(spec_same_up_to_timeline(post.txns@[pos as int], txn_info));
            lemma_txns_lookup_pin(post, pos as int);
            // Every non-replaced, non-evicted old entry survives, up to
            // promotion.
            assert forall|i: int|
                0 <= i < orig.txns@.len() && !((#[trigger] orig.txns@[i]).txn.sender == address
                    && orig.txns@[i].txn.sequence_number == sequence_number) && !(
                orig.txns@.len() >= orig.capacity && !orig.spec_has_txn(address, sequence_number)
                    && spec_is_min(orig.txns@, i)) implies post.spec_has_txn(
                orig.txns@[i].txn.sender,
                orig.txns@[i].txn.sequence_number,
            ) && spec_same_up_to_timeline(
                post.spec_txn(orig.txns@[i].txn.sender, orig.txns@[i].txn.sequence_number),
                orig.txns@[i],
            ) by {
                let e = orig.txns@[i];
                assert(pre4.txns@.contains(e));
                let w = choose|w: int| 0 <= w < pre4.txns@.len() && pre4.txns@[w] == e;
                assert(spec_same_up_to_timeline(post.txns@[w], pre4.txns@[w]));
                lemma_txns_lookup_pin(post, w);
            }
            // Converse containment: every entry afterwards traces back to
            // the admitted transaction or to an old entry.
            assert forall|i: int| 0 <= i < pre3.txns@.len() implies orig.txns@.contains(
                #[trigger] pre3.txns@[i],
            ) by {}
            lemma_insert_traceback(
                orig.txns@,
                pre3.txns@,
                pre4.txns@,
                post.txns@,
                pos as int,
                txn_info,
            );
        }
        MempoolStatus::Accepted
    }

    /// Promotes the account's transactions chained consecutively from the
    /// cached sequence number into the replication timeline.
    fn process_ready(&mut self, address: u64, cached_sequence_number: u64)
        requires
            old(self).wf(),
        ensures
            final(self).wf(),
            final(self).capacity == old(self).capacity,
            final(self).txns@.len() == old(self).txns@.len(),
            forall|i: int|
                0 <= i < final(self).txns@.len() ==> spec_same_up_to_timeline(
                    #[trigger] final(self).txns@[i],
                    old(self).txns@[i],
                ),
            forall|i: int|
                0 <= i < final(self).txns@.len() && (#[trigger] old(self).txns@[i]).txn.sender
                    != address ==> final(self).txns@[i] == old(self).txns@[i],
    {
        let mut s = cached_sequence_number;
        while s < u64::MAX
            invariant
                self.wf(),
                self.capacity == old(self).capacity,
                self.txns@.len() == old(self).txns@.len(),
                forall|i: int|
                    0 <= i < self.txns@.len() ==> spec_same_up_to_timeline(
                        #[trigger] self.txns@[i],
                        old(self).txns@[i],
                    ),
                forall|i: int|
                    0 <= i < self.txns@.len() && (#[trigger] old(self).txns@[i]).txn.sender
                        != address ==> self.txns@[i] == old(self).txns@[i],
            decreases u64::MAX - s,
        {
            let idx = match self.find(address, s) {
                Some(i) => i,
                None => {
                    break ;
                },
            };
            let entry = self.txns[idx];
            if entry.timeline_state == TimelineState::NotReady {
                if self.timeline.len() >= usize::MAX - 1 {
                    break ;
                }
                let id = (self.timeline.len() + 1) as u64;
                self.timeline.push(TxnPointer { address, sequence_number: s });
                let ghost before_set = self.txns@;
                self.txns.set(
                    idx,
                    MempoolTransaction { timeline_state: TimelineState::Ready(id), ..entry },
                );
                proof {
                    assert forall|k: int|
                        0 <= k < self.txns@.len() implies spec_same_up_to_timeline(
                        #[trigger] self.txns@[k],
                        before_set[k],
                    ) by {}
                    lemma_sorted_same_keys(before_set, self.txns@);
                }
            }
            s += 1;
        }
    }

    /// Reads up to `count` transactions with timeline ids above
    /// `timeline_id`, returning them with the id of the last one found.
    pub fn read_timeline(&self, timeline_id: u64, count: usize) -> (r: (
        Vec<SignedTransaction>,
        u64,
    ))
        requires
            self.wf(),
        ensures
            r.0@ == spec_timeline_collect(*self, timeline_id as int, count as int),
            r.0@.len() <= count,
            r.1 >= timeline_id,
            r.0@.len() == 0 ==> r.1 == timeline_id,
            r.0@.len() > 0 ==> timeline_id < r.1 <= self.timeline@.len() && spec_timeline_serves(
                *self,
                r.1 as int - 1,
            ) && r.0@.last() == self.spec_txn(
                self.timeline@[r.1 - 1].address,
                self.timeline@[r.1 - 1].sequence_number,
            ).txn,
    {
        let ghost s = *self;
        let ghost n0 = count as int;
        let mut batch: Vec<SignedTransaction> = Vec::new();
        let mut last: u64 = timeline_id;
        let mut id = timeline_id;
        while id < self.timeline.len() as u64 && batch.len() < count
            invariant
                self.wf(),
                s == *self,
                batch@.len() <= count,
                id >= timeline_id,
                batch@ + spec_timeline_collect(s, id as int, n0 - batch@.len()) ==
                    spec_timeline_collect(s, timeline_id as int, n0),
                n0 == count as int,
                batch@.len() == 0 ==> last == timeline_id,
                batch@.len() > 0 ==> timeline_id < last && last <= id && last
                    <= s.timeline@.len() && spec_timeline_serves(s, last as int - 1)
                    && batch@.last() == s.spec_txn(
                    s.timeline@[last - 1].address,
                    s.timeline@[last - 1].sequence_number,
                ).txn,
            decreases self.timeline@.len() - id,
        {
            let ghost batch0 = batch@;
            let ptr = self.timeline[id as usize];
            match self.get(ptr.address, ptr.sequence_number) {
                Some(txn) => {
                    if is_ready_with(&self.stored_entry(ptr.address, ptr.sequence_number), id + 1)
                    {
                        batch.push(txn);
                        last = id + 1;
                        proof {
                            assert(spec_timeline_serves(s, id as int));
                            assert(batch@ =~= batch0 + seq![txn]);
                            assert(batch@ + spec_timeline_collect(s, id as int + 1, n0
                                - batch@.len()) =~= batch0 + spec_timeline_collect(
                                s,
                                id as int,
                                n0 - batch0.len(),
                            ));
                        }
                    } else {
                        proof {
                            assert(!spec_timeline_serves(s, id as int));
                        }
                    }
                },
                None => {
                    proof {
                        assert(!spec_timeline_serves(s, id as int));
                    }
                },
            }
            id += 1;
        }
        proof {
            assert(spec_timeline_collect(s, id as int, n0 - batch@.len()) =~= Seq::empty());
            assert(batch@ =~= batch@ + Seq::<SignedTransaction>::empty());
        }
        (batch, last)
    }

    /// The stored entry (not just the transaction) for a pointer.
    fn stored_entry(&self, address: u64, sequence_number: u64) -> (r: MempoolTransaction)
        requires
            self.wf(),
            self.spec_has_txn(address, sequence_number),
        ensures
            r == self.spec_txn(address, sequence_number),
    {
        match self.find(address, sequence_number) {
            Some(i) => self.txns[i],
            None => {
                proof {
                    assert(false);
                }
                self.txns[0]
            },
        }
    }

    /// Transactions with timeline ids in `(start_excl, end_incl]`.
    pub fn timeline_range(&self, start_excl: u64, end_incl: u64) -> (r: Vec<SignedTransaction>)
        requires
            self.wf(),
        ensures
            r@ == spec_timeline_between(*self, start_excl as int, end_incl as int),
    {
        let ghost s = *self;
        let mut batch: Vec<SignedTransaction> = Vec::new();
        let mut id = start_excl;
        while id < end_incl && id < self.timeline.len() as u64
            invariant
                self.wf(),
                s == *self,
                id >= start_excl,
                id <= end_incl || id == start_excl,
                batch@ + spec_timeline_between(s, id as int, end_incl as int) ==
                    spec_timeline_between(s, start_excl as int, end_incl as int),
            decreases end_incl - id,
        {
            let ghost batch0 = batch@;
            let ptr = self.timeline[id as usize];
            match self.get(ptr.address, ptr.sequence_number) {
                Some(txn) => {
                    if is_ready_with(&self.stored_entry(ptr.address, ptr.sequence_number), id + 1)
                    {
                        batch.push(txn);
                        proof {
                            assert(spec_timeline_serves(s, id as int));
                            assert(batch@ =~= batch0 + seq![txn]);
                            assert(batch@ + spec_timeline_between(s, id as int + 1, end_incl as int)
                                =~= batch0 + spec_timeline_between(s, id as int, end_incl as int));
                        }
                    } else {
                        proof {
                            assert(!spec_timeline_serves(s, id as int));
                        }
                    }
                },
                None => {
                    proof {
                        assert(!spec_timeline_serves(s, id as int));
                    }
                },
            }
            id += 1;
        }
        proof {
            assert(spec_timeline_between(s, id as int, end_incl as int)
                =~= Seq::<SignedTransaction>::empty());
            assert(batch@ =~= batch@ + Seq::<SignedTransaction>::empty());
        }
        batch
    }
}

/// Whether the timeline entry at 0-based position `id` is served: its
/// transaction is still pooled and sits in the timeline under exactly the id
/// `id + 1`.
pub open spec fn spec_timeline_serves(s: TransactionStore, id: int) -> bool {
    &&& 0 <= id < s.timeline@.len()
    &&& s.spec_has_txn(s.timeline@[id].address, s.timeline@[id].sequence_number)
    &&& s.spec_txn(
        s.timeline@[id].address,
        s.timeline@[id].sequence_number,
    ).timeline_state == TimelineState::Ready((id + 1) as u64)
}

/// The transactions the timeline serves from 0-based position `id` on, at
/// most `count` of them, in timeline order.
pub open spec fn spec_timeline_collect(s: TransactionStore, id: int, count: int) -> Seq<
    SignedTransaction,
>
    decreases s.timeline@.len() - id,
    when id >= 0
{
    if count <= 0 || id < 0 || id >= s.timeline@.len() {
        Seq::empty()
    } else if spec_timeline_serves(s, id) {
        seq![
            s.spec_txn(s.timeline@[id].address, s.timeline@[id].sequence_number).txn,
        ] + spec_timeline_collect(s, id + 1, count - 1)
    } else {
        spec_timeline_collect(s, id + 1, count)
    }
}

/// The transactions the timeline serves at 0-based positions in
/// `[id, end)`, in timeline order.
pub open spec fn spec_timeline_between(s: TransactionStore, id: int, end: int) -> Seq<
    SignedTransaction,
>
    decreases end - id,
    when id >= 0
{
    if id < 0 || id >= end || id >= s.timeline@.len() {
        Seq::empty()
    } else if spec_timeline_serves(s, id) {
        seq![
            s.spec_txn(s.timeline@[id].address, s.timeline@[id].sequence_number).txn,
        ] + spec_timeline_between(s, id + 1, end)
    } else {
        spec_timeline_between(s, id + 1, end)
    }
}

/// Whether the entry sits in the timeline under exactly this id.
fn is_ready_with(t: &MempoolTransaction, id: u64) -> (r: bool)
    ensures
        r == (t.timeline_state == TimelineState::Ready(id)),
{
    match t.timeline_state {
        TimelineState::Ready(i) => i == id,
        _ => false,
    }
}

/// Removing one entry keeps the remaining (account, sequence) pairs unique.
proof fn lemma_txns_remove_unique(pre: Seq<MempoolTransaction>, post: Seq<MempoolTransaction>, i: int)
    requires
        forall|a: int, b: int|
            0 <= a < b < pre.len() ==> !(pre[a].txn.sender == pre[b].txn.sender
                && pre[a].txn.sequence_number == pre[b].txn.sequence_number),
        0 <= i < pre.len(),
        post == pre.remove(i),
    ensures
        forall|a: int, b: int|
            0 <= a < b < post.len() ==> !(post[a].txn.sender == post[b].txn.sender
                && post[a].txn.sequence_number == post[b].txn.sequence_number),
        forall|a: u64, s: u64|
            !(pre[i].txn.sender == a && pre[i].txn.sequence_number == s) ==> (
            spec_txns_has(post, a, s) == spec_txns_has(pre, a, s)),
{
    assert forall|a: int, b: int|
        0 <= a < b < post.len() implies !(post[a].txn.sender == post[b].txn.sender
        && post[a].txn.sequence_number == post[b].txn.sequence_number) by {
        assert(post[a] == if a < i {
            pre[a]
        } else {
            pre[a + 1]
        });
        assert(post[b] == if b < i {
            pre[b]
        } else {
            pre[b + 1]
        });
    }
    assert forall|a: u64, s: u64|
        !(pre[i].txn.sender == a && pre[i].txn.sequence_number == s) implies (spec_txns_has(
        post,
        a,
        s,
    ) == spec_txns_has(pre, a, s)) by {
        if spec_txns_has(pre, a, s) {
            let o = choose|o: int|
                0 <= o < pre.len() && (#[trigger] pre[o]).txn.sender == a
                    && pre[o].txn.sequence_number == s;
            assert(o != i);
            let o2 = if o < i {
                o
            } else {
                o - 1
            };
            assert(post[o2] == pre[o]);
            assert(spec_txns_has(post, a, s));
        }
        if spec_txns_has(post, a, s) {
            let o = choose|o: int|
                0 <= o < post.len() && (#[trigger] post[o]).txn.sender == a
                    && post[o].txn.sequence_number == s;
            assert(post[o] == if o < i {
                pre[o]
            } else {
                pre[o + 1]
            });
            assert(spec_txns_has(pre, a, s));
        }
    }
}

/// Removing one entry keeps every other entry present, and adds none.
proof fn lemma_txns_remove_membership(
    pre: Seq<MempoolTransaction>,
    post: Seq<MempoolTransaction>,
    i: int,
)
    requires
        0 <= i < pre.len(),
        post == pre.remove(i),
    ensures
        forall|k: int| 0 <= k < pre.len() && k != i ==> post.contains(#[trigger] pre[k]),
        forall|k: int| 0 <= k < post.len() ==> pre.contains(#[trigger] post[k]),
{
    assert forall|k: int| 0 <= k < pre.len() && k != i implies post.contains(
        #[trigger] pre[k],
    ) by {
        let k2 = if k < i {
            k
        } else {
            k - 1
        };
        assert(post[k2] == pre[k]);
    }
    assert forall|k: int| 0 <= k < post.len() implies pre.contains(#[trigger] post[k]) by {
        let k2 = if k < i {
            k
        } else {
            k + 1
        };
        assert(pre[k2] == post[k]);
    }
}

/// Inserting keeps every existing entry present.
proof fn lemma_txns_insert_membership(
    pre: Seq<MempoolTransaction>,
    post: Seq<MempoolTransaction>,
    p: int,
    x: MempoolTransaction,
)
    requires
        0 <= p <= pre.len(),
        post == pre.insert(p, x),
    ensures
        forall|k: int| 0 <= k < pre.len() ==> post.contains(#[trigger] pre[k]),
{
    assert forall|k: int| 0 <= k < pre.len() implies post.contains(#[trigger] pre[k]) by {
        let k2 = if k < p {
            k
        } else {
            k + 1
        };
        assert(post[k2] == pre[k]);
    }
}

/// After inserting the admitted entry and promoting timeline states, every
/// entry traces back to the admitted transaction or to an old entry.
proof fn lemma_insert_traceback(
    orig: Seq<MempoolTransaction>,
    pre3: Seq<MempoolTransaction>,
    pre4: Seq<MempoolTransaction>,
    post: Seq<MempoolTransaction>,
    pos: int,
    x: MempoolTransaction,
)
    requires
        0 <= pos <= pre3.len(),
        pre4 == pre3.insert(pos, x),
        post.len() == pre4.len(),
        forall|i: int|
            0 <= i < post.len() ==> spec_same_up_to_timeline(#[trigger] post[i], pre4[i]),
        forall|i: int| 0 <= i < pre3.len() ==> orig.contains(#[trigger] pre3[i]),
    ensures
        forall|i: int|
            0 <= i < post.len() ==> spec_same_up_to_timeline(#[trigger] post[i], x) || exists|j: int|
                0 <= j < orig.len() && spec_same_up_to_timeline(post[i], orig[j]),
{
    assert forall|i: int|
        0 <= i < post.len() implies spec_same_up_to_timeline(#[trigger] post[i], x) || exists|j: int|
            0 <= j < orig.len() && spec_same_up_to_timeline(post[i], orig[j]) by {
        assert(spec_same_up_to_timeline(post[i], pre4[i]));
        if i == pos {
            assert(pre4[i] == x);
        } else {
            let i2 = if i < pos {
                i
            } else {
                i - 1
            };
            assert(pre4[i] == pre3[i2]);
            assert(orig.contains(pre3[i2]));
            let j = choose|j: int| 0 <= j < orig.len() && orig[j] == pre3[i2];
            assert(spec_same_up_to_timeline(post[i], orig[j]));
        }
    }
}

/// With unique pointers, the entry at an index is what lookup returns.
proof fn lemma_txns_lookup_pin(s: TransactionStore, i: int)
    requires
        forall|a: int, b: int|
            0 <= a < b < s.txns@.len() ==> !(s.txns@[a].txn.sender == s.txns@[b].txn.sender
                && s.txns@[a].txn.sequence_number == s.txns@[b].txn.sequence_number),
        0 <= i < s.txns@.len(),
    ensures
        s.spec_has_txn(s.txns@[i].txn.sender, s.txns@[i].txn.sequence_number),
        s.spec_txn(s.txns@[i].txn.sender, s.txns@[i].txn.sequence_number) == s.txns@[i],
{
    let a = s.txns@[i].txn.sender;
    let sq = s.txns@[i].txn.sequence_number;
    assert(s.spec_has_txn(a, sq));
    let j = s.spec_index_of(a, sq);
    assert(s.txns@[j].txn.sender == a && s.txns@[j].txn.sequence_number == sq);
    if j < i {
        assert(!(s.txns@[j].txn.sender == s.txns@[i].txn.sender && s.txns@[j].txn.sequence_number
            == s.txns@[i].txn.sequence_number));
    }
    if i < j {
        assert(!(s.txns@[i].txn.sender == s.txns@[j].txn.sender && s.txns@[i].txn.sequence_number
            == s.txns@[j].txn.sequence_number));
    }
}

/// Whether the list holds a transaction of this account and sequence.
pub open spec fn spec_txns_has(txns: Seq<MempoolTransaction>, address: u64, sequence_number: u64) -> bool {
    exists|i: int|
        0 <= i < txns.len() && (#[trigger] txns[i]).txn.sender == address
            && txns[i].txn.sequence_number == sequence_number
}

/// The pointer of a transaction.
pub open spec fn spec_ptr_of(t: SignedTransaction) -> TxnPointer {
    TxnPointer { address: t.sender, sequence_number: t.sequence_number }
}

/// The pointers of a batch, in order.
pub open spec fn spec_ptrs_of(s: Seq<SignedTransaction>) -> Seq<TxnPointer> {
    Seq::new(s.len(), |i: int| spec_ptr_of(s[i]))
}

/// The pointer one sequence number below.
pub open spec fn spec_prev(p: TxnPointer) -> TxnPointer {
    TxnPointer { address: p.address, sequence_number: (p.sequence_number - 1) as u64 }
}

/// Whether a transaction can be served against the caller's seen set alone:
/// it is the account's next transaction, or its predecessor was already
/// handed out earlier.
pub open spec fn spec_eligible(cache: TtlCache, seen0: Seq<TxnPointer>, t: MempoolTransaction) -> bool {
    ||| cache.spec_get(t.txn.sender) == Some(t.txn.sequence_number)
    ||| (t.txn.sequence_number > 0 && seen0.contains(spec_prev(spec_ptr_of(t.txn))))
}

/// The chaining guarantee for entry `k` of a served batch: the transaction
/// is the account's next one, or its predecessor sits in the caller's seen
/// set, or its predecessor stands earlier in the same batch.
pub open spec fn spec_chained(
    cache: TtlCache,
    seen0: Seq<TxnPointer>,
    ptrs: Seq<TxnPointer>,
    k: int,
) -> bool {
    let p = ptrs[k];
    ||| cache.spec_get(p.address) == Some(p.sequence_number)
    ||| (p.sequence_number > 0 && (seen0.contains(spec_prev(p)) || exists|j: int|
        0 <= j < k && ptrs[j] == spec_prev(p)))
}

/// Completeness of a served batch: every pooled transaction that was not
/// already seen and is eligible against the seen set alone is in the batch.
pub open spec fn spec_get_block_complete(
    pool: Mempool,
    seen0: Seq<TxnPointer>,
    out: Seq<SignedTransaction>,
) -> bool {
    forall|i: int|
        #![auto]
        0 <= i < pool.transactions.txns@.len() ==> (seen0.contains(
            spec_ptr_of(pool.transactions.txns@[i].txn),
        ) || spec_ptrs_of(out).contains(spec_ptr_of(pool.transactions.txns@[i].txn))
            || !spec_eligible(pool.sequence_number_cache, seen0, pool.transactions.txns@[i]))
}

/// The first-served maximality of a batch: its head outranks every pooled
/// transaction that was eligible against the seen set alone. Serving starts
/// from the top of the fee-priority queue.
pub open spec fn spec_head_outranks(pool: Mempool, seen0: Seq<TxnPointer>, head: TxnPointer) -> bool {
    forall|i: int|
        #![auto]
        0 <= i < pool.transactions.txns@.len() && !seen0.contains(
            spec_ptr_of(pool.transactions.txns@[i].txn),
        ) && spec_eligible(pool.sequence_number_cache, seen0, pool.transactions.txns@[i])
            ==> spec_prio_ge(
            pool.transactions.spec_txn(head.address, head.sequence_number),
            pool.transactions.txns@[i],
        )
}

/// Whether the pointer occurs in the list.
pub fn contains_ptr(v: &Vec<TxnPointer>, p: TxnPointer) -> (r: bool)
    ensures
        r == v@.contains(p),
{
    let mut i: usize = 0;
    while i < v.len()
        invariant
            i <= v@.len(),
            forall|k: int| 0 <= k < i ==> v@[k] != p,
        decreases v@.len() - i,
    {
        if v[i] == p {
            proof {
                assert(v@.contains(p));
            }
            return true;
        }
        i += 1;
    }
    proof {
        assert(!v@.contains(p));
    }
    false
}

/// The larger of two numbers.
fn max_u64(a: u64, b: u64) -> (r: u64)
    ensures
        r == crate::types::max64(a, b),
{
    if a >= b {
        a
    } else {
        b
    }
}

/// The mempool: the transaction store, the cache of per-account on-chain
/// sequence numbers, and the admission timeout.
#[derive(Debug)]
pub struct Mempool {
    pub transactions: TransactionStore,
    pub sequence_number_cache: TtlCache,
    pub system_transaction_timeout_secs: u64,
}

/// The sequence number an account must reach to be admitted, given the
/// cached value and the value read from the ledger.
pub open spec fn spec_effective_seq(cache: TtlCache, sender: u64, db_sequence_number: u64) -> u64 {
    match cache.spec_get(sender) {
        Some(v) => crate::types::max64(v, db_sequence_number),
        None => db_sequence_number,
    }
}

/// The pool entry an admission builds: the given transaction and metadata,
/// expiring `timeout` past `now` (saturating).
pub open spec fn spec_admitted_entry(
    txn: SignedTransaction,
    gas_amount: u64,
    ranking_score: u64,
    timeline_state: TimelineState,
    is_governance: bool,
    timeout_secs: u64,
    now_secs: u64,
) -> MempoolTransaction {
    MempoolTransaction {
        txn,
        expiration_time_secs: if now_secs + timeout_secs > u64::MAX {
            u64::MAX
        } else {
            (now_secs + timeout_secs) as u64
        },
        gas_amount,
        ranking_score,
        timeline_state,
        is_governance,
    }
}

impl Mempool {
    pub open spec fn wf(self) -> bool {
        &&& self.transactions.wf()
        &&& self.sequence_number_cache.wf()
    }

    /// Builds a pool with the given capacity (shared by the store and the
    /// sequence cache) and admission timeout.
    pub fn new(capacity: usize, system_transaction_timeout_secs: u64, cache_ttl_secs: u64) -> (r:
        Mempool)
        requires
            capacity >= 1,
        ensures
            r.wf(),
            r.transactions.txns@.len() == 0,
            r.transactions.timeline@.len() == 0,
            r.transactions.capacity == capacity,
            r.sequence_number_cache.entries@.len() == 0,
            r.sequence_number_cache.capacity == capacity,
            r.sequence_number_cache.ttl_secs == cache_ttl_secs,
            forall|k: u64| r.sequence_number_cache.spec_get(k) is None,
            r.system_transaction_timeout_secs == system_transaction_timeout_secs,
    {
        Mempool {
            transactions: TransactionStore::new(capacity),
            sequence_number_cache: TtlCache::new(capacity, cache_ttl_secs),
            system_transaction_timeout_secs,
        }
    }

    /// Admits a transaction.
    ///
    /// The account's effective sequence number is the larger of the cached
    /// one and the one read from the ledger; a transaction below it is
    /// refused as stale. An admitted transaction expires the pool's timeout
    /// past `now` and is stored under its fee rank.
    pub fn add_txn(
        &mut self,
        txn: SignedTransaction,
        gas_amount: u64,
        ranking_score: u64,
        db_sequence_number: u64,
        timeline_state: TimelineState,
        is_governance_txn: bool,
        now_secs: u64,
    ) -> (r: MempoolStatus)
        requires
            old(self).wf(),
        ensures
            final(self).wf(),
            final(self).system_transaction_timeout_secs == old(self).system_transaction_timeout_secs,
            final(self).transactions.capacity == old(self).transactions.capacity,
            // The account's cached sequence number is refreshed on every
            // call, rejections included; other accounts keep their values.
            final(self).sequence_number_cache.spec_get(txn.sender) == Some(
                spec_effective_seq(
                    old(self).sequence_number_cache,
                    txn.sender,
                    db_sequence_number,
                ),
            ),
            forall|k: u64|
                k != txn.sender && final(self).sequence_number_cache.spec_get(k) is Some ==> final(self).sequence_number_cache.spec_get(k) == old(self).sequence_number_cache.spec_get(k),
            r == MempoolStatus::InvalidSeqNumber <==> txn.sequence_number < spec_effective_seq(
                old(self).sequence_number_cache,
                txn.sender,
                db_sequence_number,
            ),
            r == MempoolStatus::InvalidUpdate <==> txn.sequence_number >= spec_effective_seq(
                old(self).sequence_number_cache,
                txn.sender,
                db_sequence_number,
            ) && old(self).transactions.spec_has_txn(txn.sender, txn.sequence_number) && old(self).transactions.spec_txn(txn.sender, txn.sequence_number).ranking_score
                >= ranking_score,
            r == MempoolStatus::MempoolIsFull <==> txn.sequence_number >= spec_effective_seq(
                old(self).sequence_number_cache,
                txn.sender,
                db_sequence_number,
            ) && !old(self).transactions.spec_has_txn(txn.sender, txn.sequence_number) && old(self).transactions.txns@.len() >= old(self).transactions.capacity
                && spec_outranked_by_all(
                old(self).transactions.txns@,
                spec_admitted_entry(
                    txn,
                    gas_amount,
                    ranking_score,
                    timeline_state,
                    is_governance_txn,
                    old(self).system_transaction_timeout_secs,
                    now_secs,
                ),
            ),
            r == MempoolStatus::Accepted || r == MempoolStatus::InvalidSeqNumber || r
                == MempoolStatus::InvalidUpdate || r == MempoolStatus::MempoolIsFull,
            // On any rejection the pool itself is untouched.
            r != MempoolStatus::Accepted ==> final(self).transactions.txns@ == old(self).transactions.txns@ && final(self).transactions.timeline@ == old(self).transactions.timeline@,
            // On admission the stored entry carries exactly the given
            // metadata and the expiry `timeout` past `now`, up to timeline
            // promotion.
            r == MempoolStatus::Accepted ==> final(self).transactions.spec_has_txn(
                txn.sender,
                txn.sequence_number,
            ) && spec_same_up_to_timeline(
                final(self).transactions.spec_txn(txn.sender, txn.sequence_number),
                spec_admitted_entry(
                    txn,
                    gas_amount,
                    ranking_score,
                    timeline_state,
                    is_governance_txn,
                    old(self).system_transaction_timeout_secs,
                    now_secs,
                ),
            ),
            // Nothing appears from nowhere: every entry afterwards is the
            // admitted one or an old entry, up to timeline promotion.
            forall|i: int|
                0 <= i < final(self).transactions.txns@.len() ==> spec_same_up_to_timeline(
                    #[trigger] final(self).transactions.txns@[i],
                    spec_admitted_entry(
                        txn,
                        gas_amount,
                        ranking_score,
                        timeline_state,
                        is_governance_txn,
                        old(self).system_transaction_timeout_secs,
                        now_secs,
                    ),
                ) || exists|j: int|
                    0 <= j < old(self).transactions.txns@.len() && spec_same_up_to_timeline(
                        final(self).transactions.txns@[i],
                        old(self).transactions.txns@[j],
                    ),
            // Admission keeps every other entry, except that at capacity one
            // lowest-priority entry may be evicted.
            r == MempoolStatus::Accepted ==> forall|i: int|
                0 <= i < old(self).transactions.txns@.len() && !((#[trigger] old(self).transactions.txns@[i]).txn.sender == txn.sender && old(self).transactions.txns@[i].txn.sequence_number == txn.sequence_number) && !(old(self).transactions.txns@.len() >= old(self).transactions.capacity && !old(self).transactions.spec_has_txn(txn.sender, txn.sequence_number) && spec_is_min(
                    old(self).transactions.txns@,
                    i,
                )) ==> final(self).transactions.spec_has_txn(
                    old(self).transactions.txns@[i].txn.sender,
                    old(self).transactions.txns@[i].txn.sequence_number,
                ) && spec_same_up_to_timeline(
                    final(self).transactions.spec_txn(
                        old(self).transactions.txns@[i].txn.sender,
                        old(self).transactions.txns@[i].txn.sequence_number,
                    ),
                    old(self).transactions.txns@[i],
                ),
    {
        let cached_value = self.sequence_number_cache.get(txn.sender);
        let sequence_number = match cached_value {
            Some(v) => max_u64(v, db_sequence_number),
            None => db_sequence_number,
        };
        self.sequence_number_cache.insert(txn.sender, sequence_number, now_secs);
        if txn.sequence_number < sequence_number {
            return MempoolStatus::InvalidSeqNumber;
        }
        let expiration_time_secs = if now_secs > u64::MAX - self.system_transaction_timeout_secs {
            u64::MAX
        } else {
            now_secs + self.system_transaction_timeout_secs
        };
        let txn_info = MempoolTransaction {
            txn,
            expiration_time_secs,
            gas_amount,
            ranking_score,
            timeline_state,
            is_governance: is_governance_txn,
        };
        self.transactions.insert(txn_info, sequence_number)
    }

    /// Acknowledges the fate of a stored transaction.
    ///
    /// A rejection drops the transaction and all the account's later ones. A
    /// commit advances the cached sequence number past the committed
    /// transaction and drops everything below it.
    pub fn remove_transaction(
        &mut self,
        sender: u64,
        sequence_number: u64,
        is_rejected: bool,
        now_secs: u64,
    )
        requires
            old(self).wf(),
        ensures
            final(self).wf(),
            // Nothing new ever appears, and the timeline stays.
            forall|i: int|
                0 <= i < final(self).transactions.txns@.len() ==> old(self).transactions.txns@.contains(#[trigger] final(self).transactions.txns@[i]),
            final(self).transactions.timeline@ == old(self).transactions.timeline@,
            // Other accounts keep their cache entries.
            forall|k: u64|
                k != sender && final(self).sequence_number_cache.spec_get(k) is Some ==> final(self).sequence_number_cache.spec_get(k) == old(self).sequence_number_cache.spec_get(k),
            is_rejected ==> final(self).sequence_number_cache.spec_get(sender) is None,
            is_rejected && sequence_number >= spec_unwrap_or(
                old(self).sequence_number_cache.spec_get(sender),
                0,
            ) ==> (forall|s: u64|
                s >= sequence_number ==> !final(self).transactions.spec_has_txn(sender, s)) && (
            forall|i: int|
                0 <= i < old(self).transactions.txns@.len() && !((#[trigger] old(self).transactions.txns@[i]).txn.sender == sender && old(self).transactions.txns@[i].txn.sequence_number >= sequence_number) ==> final(self).transactions.txns@.contains(old(self).transactions.txns@[i])),
            is_rejected && sequence_number < spec_unwrap_or(
                old(self).sequence_number_cache.spec_get(sender),
                0,
            ) ==> final(self).transactions.txns@ == old(self).transactions.txns@,
            !is_rejected ==> {
                let new_seq = spec_commit_seq(
                    old(self).sequence_number_cache.spec_get(sender),
                    sequence_number,
                );
                &&& final(self).sequence_number_cache.spec_get(sender) == Some(new_seq)
                &&& forall|s: u64| s < new_seq ==> !final(self).transactions.spec_has_txn(sender, s)
                &&& forall|i: int|
                    0 <= i < old(self).transactions.txns@.len() && !((#[trigger] old(self).transactions.txns@[i]).txn.sender == sender && old(self).transactions.txns@[i].txn.sequence_number < new_seq) ==> final(self).transactions.txns@.contains(old(self).transactions.txns@[i])
            },
    {
        let current_seq_number = match self.sequence_number_cache.remove(sender) {
            Some(v) => v,
            None => 0,
        };
        if is_rejected {
            if sequence_number >= current_seq_number {
                self.transactions.sweep(DropRule::SeqAtOrAbove { sender, seq: sequence_number });
                proof {
                    assert forall|s: u64| s >= sequence_number implies !self.transactions.spec_has_txn(
                        sender,
                        s,
                    ) by {
                        if self.transactions.spec_has_txn(sender, s) {
                            let i = self.transactions.spec_index_of(sender, s);
                            assert(!spec_drops(
                                DropRule::SeqAtOrAbove { sender, seq: sequence_number },
                                self.transactions.txns@[i],
                            ));
                        }
                    }
                }
            }
        } else {
            let bump = if sequence_number < u64::MAX {
                sequence_number + 1
            } else {
                u64::MAX
            };
            let new_seq_number = max_u64(current_seq_number, bump);
            self.sequence_number_cache.insert(sender, new_seq_number, now_secs);
            self.transactions.sweep(DropRule::SeqBelow { sender, below: new_seq_number });
            proof {
                assert forall|s: u64| s < new_seq_number implies !self.transactions.spec_has_txn(
                    sender,
                    s,
                ) by {
                    if self.transactions.spec_has_txn(sender, s) {
                        let i = self.transactions.spec_index_of(sender, s);
                        assert(!spec_drops(
                            DropRule::SeqBelow { sender, below: new_seq_number },
                            self.transactions.txns@[i],
                        ));
                    }
                }
            }
        }
    }

    /// Serves the next block of transactions for the proposer, at most
    /// `batch_size` of them, never repeating a pointer from `seen`.
    ///
    /// A transaction at (account, s) is handed out only when s is the
    /// account's cached sequence number, or (account, s - 1) is in `seen`,
    /// or (account, s - 1) stands earlier in the same batch. Conversely, if
    /// the batch is not full, every pooled transaction already eligible
    /// against `seen` alone is in it.
    #[verifier::rlimit(100)]
    pub fn get_block(&self, batch_size: u64, seen: &Vec<TxnPointer>) -> (r: Vec<SignedTransaction>)
        requires
            self.wf(),
        ensures
            r@.len() <= batch_size,
            forall|k: int|
                #![auto]
                0 <= k < r@.len() ==> self.transactions.spec_has_txn(
                    r@[k].sender,
                    r@[k].sequence_number,
                ) && r@[k] == self.transactions.spec_txn(r@[k].sender, r@[k].sequence_number).txn,
            forall|k: int|
                0 <= k < r@.len() ==> spec_chained(
                    self.sequence_number_cache,
                    seen@,
                    spec_ptrs_of(r@),
                    k,
                ),
            forall|k: int| 0 <= k < r@.len() ==> !seen@.contains(spec_ptrs_of(r@)[k]),
            forall|k1: int, k2: int|
                0 <= k1 < k2 < r@.len() ==> spec_ptrs_of(r@)[k1] != spec_ptrs_of(r@)[k2],
            r@.len() < batch_size ==> spec_get_block_complete(*self, seen@, r@),
            // Serving starts from the top of the fee-priority queue.
            r@.len() > 0 ==> spec_head_outranks(*self, seen@, spec_ptr_of(r@[0])),
    {
        let n = self.transactions.txns.len();
        let mut result: Vec<TxnPointer> = Vec::new();
        let mut skipped: Vec<TxnPointer> = Vec::new();
        let mut i: usize = 0;
        while i < n && (result.len() as u64) < batch_size
            invariant
                self.wf(),
                n == self.transactions.txns@.len(),
                i <= n,
                result@.len() <= batch_size,
                forall|k: int|
                    #![auto]
                    0 <= k < result@.len() ==> spec_txns_has(
                        self.transactions.txns@,
                        result@[k].address,
                        result@[k].sequence_number,
                    ),
                forall|k: int|
                    0 <= k < result@.len() ==> spec_chained(
                        self.sequence_number_cache,
                        seen@,
                        result@,
                        k,
                    ),
                forall|k: int| 0 <= k < result@.len() ==> !seen@.contains(#[trigger] result@[k]),
                forall|k1: int, k2: int|
                    0 <= k1 < k2 < result@.len() ==> result@[k1] != result@[k2],
                forall|m: int|
                    #![auto]
                    0 <= m < skipped@.len() ==> spec_txns_has(
                        self.transactions.txns@,
                        skipped@[m].address,
                        skipped@[m].sequence_number,
                    ) && !seen@.contains(skipped@[m]),
                forall|o: int|
                    #![auto]
                    0 <= o < i ==> (seen@.contains(spec_ptr_of(self.transactions.txns@[o].txn))
                        || result@.contains(spec_ptr_of(self.transactions.txns@[o].txn))
                        || !spec_eligible(
                        self.sequence_number_cache,
                        seen@,
                        self.transactions.txns@[o],
                    )),
                result@.len() > 0 ==> spec_head_outranks(*self, seen@, result@[0]),
            decreases n - i,
        {
            let t = self.transactions.txns[i];
            let ptr = TxnPointer { address: t.txn.sender, sequence_number: t.txn.sequence_number };
            proof {
                assert(spec_txns_has(self.transactions.txns@, ptr.address, ptr.sequence_number));
            }
            if !contains_ptr(seen, ptr) && !contains_ptr(&result, ptr) {
                let seq = t.txn.sequence_number;
                let cache_hit = match self.sequence_number_cache.get(t.txn.sender) {
                    Some(v) => v == seq,
                    None => false,
                };
                let seen_previous = seq > 0 && (contains_ptr(
                    seen,
                    TxnPointer { address: t.txn.sender, sequence_number: seq - 1 },
                ) || contains_ptr(
                    &result,
                    TxnPointer { address: t.txn.sender, sequence_number: seq - 1 },
                ));
                if cache_hit || seen_previous {
                    let ghost r0 = result@;
                    result.push(ptr);
                    proof {
                        assert(result@.drop_last() =~= r0);
                        assert forall|k: int|
                            0 <= k < result@.len() implies spec_chained(
                            self.sequence_number_cache,
                            seen@,
                            result@,
                            k,
                        ) by {
                            if k < result@.len() - 1 {
                                assert(spec_chained(self.sequence_number_cache, seen@, r0, k));
                            } else {
                                if !cache_hit && seen_previous && !seen@.contains(spec_prev(ptr)) {
                                    let j = choose|j: int|
                                        0 <= j < r0.len() && r0[j] == spec_prev(ptr);
                                    assert(result@[j] == spec_prev(ptr));
                                }
                            }
                        }
                        assert(result@.last() == ptr);
                        assert(result@.contains(ptr));
                        if r0.len() == 0 {
                            // The very first served transaction: everything
                            // walked before it was seen or ineligible, and
                            // everything after it is outranked by sort
                            // order.
                            lemma_txns_lookup_pin(self.transactions, i as int);
                            assert(result@[0] == ptr);
                            assert forall|i2: int|
                                #![auto]
                                0 <= i2 < self.transactions.txns@.len() && !seen@.contains(
                                    spec_ptr_of(self.transactions.txns@[i2].txn),
                                ) && spec_eligible(
                                self.sequence_number_cache,
                                seen@,
                                self.transactions.txns@[i2],
                            ) implies spec_prio_ge(
                                self.transactions.spec_txn(ptr.address, ptr.sequence_number),
                                self.transactions.txns@[i2],
                            ) by {
                                if i2 < i as int {
                                    assert(r0.contains(
                                        spec_ptr_of(self.transactions.txns@[i2].txn),
                                    ) == false);
                                } else {
                                    assert(spec_prio_ge(
                                        self.transactions.txns@[i as int],
                                        self.transactions.txns@[i2],
                                    ));
                                }
                            }
                        }
                        assert forall|o: int| #![auto] 0 <= o <= i implies (seen@.contains(
                            spec_ptr_of(self.transactions.txns@[o].txn),
                        ) || result@.contains(spec_ptr_of(self.transactions.txns@[o].txn))
                            || !spec_eligible(
                            self.sequence_number_cache,
                            seen@,
                            self.transactions.txns@[o],
                        )) by {
                            let p = spec_ptr_of(self.transactions.txns@[o].txn);
                            if o == i as int {
                                assert(p == ptr);
                            } else {
                                if r0.contains(p) {
                                    let w = choose|w: int| 0 <= w < r0.len() && r0[w] == p;
                                    assert(result@[w] == p);
                                }
                            }
                        }
                    }
                    // Drain the account's directly following transactions
                    // that were walked earlier and parked.
                    let mut next: u64 = seq;
                    loop
                        invariant_except_break
                            self.wf(),
                            n == self.transactions.txns@.len(),
                            next >= seq,
                            result@.len() >= 1,
                            result@.len() <= batch_size,
                            result@.last() == (TxnPointer {
                                address: t.txn.sender,
                                sequence_number: next,
                            }),
                            forall|k: int|
                                #![auto]
                                0 <= k < result@.len() ==> spec_txns_has(
                                    self.transactions.txns@,
                                    result@[k].address,
                                    result@[k].sequence_number,
                                ),
                            forall|k: int|
                                0 <= k < result@.len() ==> spec_chained(
                                    self.sequence_number_cache,
                                    seen@,
                                    result@,
                                    k,
                                ),
                            forall|k: int|
                                0 <= k < result@.len() ==> !seen@.contains(#[trigger] result@[k]),
                            forall|k1: int, k2: int|
                                0 <= k1 < k2 < result@.len() ==> result@[k1] != result@[k2],
                            forall|m: int|
                                #![auto]
                                0 <= m < skipped@.len() ==> spec_txns_has(
                                    self.transactions.txns@,
                                    skipped@[m].address,
                                    skipped@[m].sequence_number,
                                ) && !seen@.contains(skipped@[m]),
                            forall|o: int|
                                #![auto]
                                0 <= o <= i ==> (seen@.contains(
                                    spec_ptr_of(self.transactions.txns@[o].txn),
                                ) || result@.contains(spec_ptr_of(self.transactions.txns@[o].txn))
                                    || !spec_eligible(
                                    self.sequence_number_cache,
                                    seen@,
                                    self.transactions.txns@[o],
                                )),
                            result@.len() > 0 ==> spec_head_outranks(*self, seen@, result@[0]),
                        ensures
                            result@.len() <= batch_size,
                            forall|k: int|
                                #![auto]
                                0 <= k < result@.len() ==> spec_txns_has(
                                    self.transactions.txns@,
                                    result@[k].address,
                                    result@[k].sequence_number,
                                ),
                            forall|k: int|
                                0 <= k < result@.len() ==> spec_chained(
                                    self.sequence_number_cache,
                                    seen@,
                                    result@,
                                    k,
                                ),
                            forall|k: int|
                                0 <= k < result@.len() ==> !seen@.contains(#[trigger] result@[k]),
                            forall|k1: int, k2: int|
                                0 <= k1 < k2 < result@.len() ==> result@[k1] != result@[k2],
                            forall|m: int|
                                #![auto]
                                0 <= m < skipped@.len() ==> spec_txns_has(
                                    self.transactions.txns@,
                                    skipped@[m].address,
                                    skipped@[m].sequence_number,
                                ) && !seen@.contains(skipped@[m]),
                            forall|o: int|
                                #![auto]
                                0 <= o <= i ==> (seen@.contains(
                                    spec_ptr_of(self.transactions.txns@[o].txn),
                                ) || result@.contains(spec_ptr_of(self.transactions.txns@[o].txn))
                                    || !spec_eligible(
                                    self.sequence_number_cache,
                                    seen@,
                                    self.transactions.txns@[o],
                                )),
                            result@.len() > 0 ==> spec_head_outranks(*self, seen@, result@[0]),
                        decreases u64::MAX - next,
                    {
                        if (result.len() as u64) >= batch_size || next >= u64::MAX {
                            break ;
                        }
                        let follower = TxnPointer {
                            address: t.txn.sender,
                            sequence_number: next + 1,
                        };
                        if !contains_ptr(&skipped, follower) || contains_ptr(&result, follower) {
                            break ;
                        }
                        let ghost r1 = result@;
                        let ghost skipped_now = skipped@;
                        result.push(follower);
                        proof {
                            assert(result@.drop_last() =~= r1);
                            assert(result@[0] == r1[0]);
                            assert forall|k: int|
                                0 <= k < result@.len() implies spec_chained(
                                self.sequence_number_cache,
                                seen@,
                                result@,
                                k,
                            ) by {
                                if k < result@.len() - 1 {
                                    assert(spec_chained(self.sequence_number_cache, seen@, r1, k));
                                } else {
                                    assert(result@[result@.len() - 2] == spec_prev(follower));
                                }
                            }
                            let m = choose|m: int|
                                0 <= m < skipped_now.len() && skipped_now[m] == follower;
                            assert(spec_txns_has(
                                self.transactions.txns@,
                                follower.address,
                                follower.sequence_number,
                            ) && !seen@.contains(follower));
                            assert forall|o: int| #![auto] 0 <= o <= i implies (seen@.contains(
                                spec_ptr_of(self.transactions.txns@[o].txn),
                            ) || result@.contains(spec_ptr_of(self.transactions.txns@[o].txn))
                                || !spec_eligible(
                                self.sequence_number_cache,
                                seen@,
                                self.transactions.txns@[o],
                            )) by {
                                let p = spec_ptr_of(self.transactions.txns@[o].txn);
                                if r1.contains(p) {
                                    let w = choose|w: int| 0 <= w < r1.len() && r1[w] == p;
                                    assert(result@[w] == p);
                                }
                            }
                        }
                        next += 1;
                    }
                } else {
                    skipped.push(ptr);
                }
            }
            i += 1;
        }
        // Turn the pointers into the stored transactions.
        let mut out: Vec<SignedTransaction> = Vec::new();
        let mut k: usize = 0;
        while k < result.len()
            invariant
                self.wf(),
                k <= result@.len(),
                out@.len() == k,
                forall|m: int|
                    #![auto]
                    0 <= m < result@.len() ==> spec_txns_has(
                        self.transactions.txns@,
                        result@[m].address,
                        result@[m].sequence_number,
                    ),
                forall|m: int|
                    #![auto]
                    0 <= m < k ==> out@[m] == self.transactions.spec_txn(
                        result@[m].address,
                        result@[m].sequence_number,
                    ).txn && spec_ptr_of(out@[m]) == result@[m],
            decreases result@.len() - k,
        {
            let p = result[k];
            match self.transactions.get(p.address, p.sequence_number) {
                Some(txn) => {
                    out.push(txn);
                },
                None => {
                    proof {
                        assert(false);
                    }
                },
            }
            k += 1;
        }
        proof {
            assert(spec_ptrs_of(out@) =~= result@);
        }
        out
    }

    /// Periodic sweep: drops exactly the transactions past their system
    /// expiry, and the expired cache entries.
    pub fn gc(&mut self, now_secs: u64)
        requires
            old(self).wf(),
        ensures
            final(self).wf(),
            forall|i: int|
                0 <= i < final(self).transactions.txns@.len()
                    ==> (#[trigger] final(self).transactions.txns@[i]).expiration_time_secs
                    >= now_secs,
            forall|i: int|
                0 <= i < old(self).transactions.txns@.len() && (#[trigger] old(self).transactions.txns@[i]).expiration_time_secs >= now_secs ==> final(self).transactions.txns@.contains(old(self).transactions.txns@[i]),
            forall|i: int|
                0 <= i < final(self).transactions.txns@.len() ==> old(self).transactions.txns@.contains(#[trigger] final(self).transactions.txns@[i]),
            forall|i: int|
                0 <= i < final(self).sequence_number_cache.entries@.len() ==> (#[trigger] final(self).sequence_number_cache.entries@[i]).expiration_secs > now_secs,
            forall|k: u64|
                final(self).sequence_number_cache.spec_get(k) is Some ==> final(self).sequence_number_cache.spec_get(k) == old(self).sequence_number_cache.spec_get(k),
    {
        self.transactions.sweep(DropRule::SystemTtl { now_secs });
        self.sequence_number_cache.gc(now_secs);
    }

    /// Sweep by the client-chosen expiration against block time: drops
    /// exactly the transactions whose client expiry lies before it.
    pub fn gc_by_expiration_time(&mut self, block_time_secs: u64)
        requires
            old(self).wf(),
        ensures
            final(self).wf(),
            forall|i: int|
                0 <= i < final(self).transactions.txns@.len()
                    ==> (#[trigger] final(self).transactions.txns@[i]).txn.expiration_time_secs
                    >= block_time_secs,
            forall|i: int|
                0 <= i < old(self).transactions.txns@.len() && (#[trigger] old(self).transactions.txns@[i]).txn.expiration_time_secs >= block_time_secs ==> final(self).transactions.txns@.contains(old(self).transactions.txns@[i]),
            forall|i: int|
                0 <= i < final(self).transactions.txns@.len() ==> old(self).transactions.txns@.contains(#[trigger] final(self).transactions.txns@[i]),
    {
        self.transactions.sweep(DropRule::ClientTtl { block_time_secs });
    }

    /// Reads up to `count` transactions from the replication timeline past
    /// `timeline_id`, with the new last id.
    pub fn read_timeline(&self, timeline_id: u64, count: usize) -> (r: (
        Vec<SignedTransaction>,
        u64,
    ))
        requires
            self.wf(),
        ensures
            r.0@ == spec_timeline_collect(self.transactions, timeline_id as int, count as int),
            r.0@.len() <= count,
            r.1 >= timeline_id,
            r.0@.len() == 0 ==> r.1 == timeline_id,
            // The returned last id is the id of the last served entry.
            r.0@.len() > 0 ==> timeline_id < r.1 <= self.transactions.timeline@.len()
                && spec_timeline_serves(self.transactions, r.1 as int - 1) && r.0@.last()
                == self.transactions.spec_txn(
                self.transactions.timeline@[r.1 - 1].address,
                self.transactions.timeline@[r.1 - 1].sequence_number,
            ).txn,
    {
        self.transactions.read_timeline(timeline_id, count)
    }

    /// Transactions whose timeline ids lie in `(start_timeline_id,
    /// end_timeline_id]`.
    pub fn timeline_range(&self, start_timeline_id: u64, end_timeline_id: u64) -> (r: Vec<
        SignedTransaction,
    >)
        requires
            self.wf(),
        ensures
            r@ == spec_timeline_between(
                self.transactions,
                start_timeline_id as int,
                end_timeline_id as int,
            ),
    {
        self.transactions.timeline_range(start_timeline_id, end_timeline_id)
    }
}

/// The value of an optional number, or the default.
pub open spec fn spec_unwrap_or(v: Option<u64>, d: u64) -> u64 {
    match v {
        Some(x) => x,
        None => d,
    }
}

/// The cached sequence number after a commit acknowledgement.
pub open spec fn spec_commit_seq(cached: Option<u64>, sequence_number: u64) -> u64 {
    let bump = if sequence_number < u64::MAX {
        (sequence_number + 1) as u64
    } else {
        u64::MAX
    };
    crate::types::max64(spec_unwrap_or(cached, 0), bump)
}

/// An admitted transaction that is still pending is served within one call:
/// for a pooled transaction at (account, s) with s > 0, the seen set holding
/// exactly (account, s - 1) makes `get_block` return it, whenever the batch
/// was not cut short by its size bound. This is the round trip from
/// admission to serving, stated over the completeness guarantee that
/// `get_block` ensures.
pub proof fn lemma_pending_transaction_served(
    pool: Mempool,
    address: u64,
    sequence_number: u64,
    batch: Seq<SignedTransaction>,
    batch_size: u64,
)
    requires
        sequence_number > 0,
        pool.transactions.spec_has_txn(address, sequence_number),
        batch.len() < batch_size,
        spec_get_block_complete(
            pool,
            seq![TxnPointer { address, sequence_number: (sequence_number - 1) as u64 }],
            batch,
        ),
    ensures
        exists|k: int|
            0 <= k < batch.len() && batch[k].sender == address && (#[trigger] batch[k]).sequence_number
                == sequence_number,
{
    let seen0 = seq![TxnPointer { address, sequence_number: (sequence_number - 1) as u64 }];
    let i = pool.transactions.spec_index_of(address, sequence_number);
    let t = pool.transactions.txns@[i];
    assert(t.txn.sender == address && t.txn.sequence_number == sequence_number);
    assert(seen0.contains(spec_prev(spec_ptr_of(t.txn)))) by {
        assert(seen0[0] == spec_prev(spec_ptr_of(t.txn)));
    }
    assert(spec_eligible(pool.sequence_number_cache, seen0, t));
    assert forall|m: int| 0 <= m < seen0.len() implies seen0[m] != spec_ptr_of(t.txn) by {
        assert(seen0[m].sequence_number != sequence_number);
    }
    assert(!seen0.contains(spec_ptr_of(t.txn)));
    assert(spec_ptrs_of(batch).contains(spec_ptr_of(t.txn)));
    let k = choose|k: int|
        0 <= k < spec_ptrs_of(batch).len() && spec_ptrs_of(batch)[k] == spec_ptr_of(t.txn);
    assert(batch[k].sender == address && batch[k].sequence_number == sequence_number);
}

} // verus!
