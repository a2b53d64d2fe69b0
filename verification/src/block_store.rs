//! The in-memory DAG of executed blocks, rooted at the last committed block,
//! plus the highest known certificates.
//!
//! Execution itself is out of scope: the execution engine is modelled by a
//! deterministic function of the parent's result and the payload length, so
//! the store can speak about results without running a VM.

use vstd::prelude::*;

use crate::types::{
    Block, BlockId, BlockInfo, ConsensusError, QuorumCert, Round, SyncInfo, TimeoutCertificate,
    block_eq, max64, qc_eq, tc_eq,
};

verus! {

/// The result of executing a block on top of its parent's result. Stands in
/// for the ledger state the execution engine would produce: deterministic in
/// the parent result and the payload.
#[derive(Clone, Copy, PartialEq, Eq, Structural, Debug)]
pub struct StateComputeResult {
    /// Number of transactions in the ledger up to and including this block.
    pub version: u64,
}

/// The deterministic model of execution.
pub open spec fn spec_execute(parent: StateComputeResult, payload_len: nat) -> StateComputeResult {
    StateComputeResult {
        version: if parent.version + payload_len > u64::MAX {
            u64::MAX
        } else {
            (parent.version + payload_len) as u64
        },
    }
}

/// A block together with its execution result.
#[derive(Debug)]
pub struct ExecutedBlock {
    pub block: Block,
    pub compute_result: StateComputeResult,
}

/// The DAG of executed blocks with the highest certificates.
#[derive(Debug)]
pub struct BlockStore {
    /// The last committed block; ancestors of it are pruned.
    pub root_id: BlockId,
    pub blocks: Vec<ExecutedBlock>,
    pub highest_quorum_cert: QuorumCert,
    pub highest_commit_cert: QuorumCert,
    pub highest_timeout_cert: Option<TimeoutCertificate>,
}

impl BlockStore {
    /// Whether a block with this id is in the store.
    pub open spec fn spec_has_block(self, id: BlockId) -> bool {
        exists|i: int| 0 <= i < self.blocks@.len() && self.blocks@[i].block.id == id
    }

    /// The index of the block with this id.
    pub open spec fn spec_index_of(self, id: BlockId) -> int {
        choose|i: int| 0 <= i < self.blocks@.len() && self.blocks@[i].block.id == id
    }

    /// The stored block with this id.
    pub open spec fn spec_block(self, id: BlockId) -> ExecutedBlock {
        self.blocks@[self.spec_index_of(id)]
    }

    /// Well-formedness of the DAG.
    ///
    /// Ids are unique; the root is present; every block is internally well
    /// formed; every non-root block's parent is present, and the certificate
    /// the block carries agrees with the stored parent's identifying data.
    pub open spec fn wf(self) -> bool {
        &&& forall|i: int, j: int|
            0 <= i < j < self.blocks@.len() ==> self.blocks@[i].block.id
                != self.blocks@[j].block.id
        &&& self.spec_has_block(self.root_id)
        &&& forall|i: int|
            0 <= i < self.blocks@.len() ==> (#[trigger] self.blocks@[i]).block.wf()
        &&& forall|i: int|
            0 <= i < self.blocks@.len() && (#[trigger] self.blocks@[i]).block.id != self.root_id
                ==> self.spec_has_block(self.blocks@[i].block.spec_parent_id())
        &&& forall|i: int, j: int|
            0 <= i < self.blocks@.len() && 0 <= j < self.blocks@.len()
                && (#[trigger] self.blocks@[j]).block.id
                == (#[trigger] self.blocks@[i]).block.spec_parent_id()
                ==> self.blocks@[i].block.quorum_cert.certified() == self.blocks@[j].block.spec_info()
    }

    /// Starts a store at a committed root block certified by `root_qc`.
    pub fn new(root: Block, root_qc: QuorumCert, root_version: u64) -> (r: Result<
        BlockStore,
        ConsensusError,
    >)
        ensures
            r matches Ok(bs) ==> {
                &&& bs.wf()
                &&& bs.root_id == root.id
                &&& bs.spec_has_block(root.id)
                &&& qc_eq(bs.highest_quorum_cert, root_qc)
                &&& qc_eq(bs.highest_commit_cert, root_qc)
                &&& bs.highest_timeout_cert is None
            },
            r is Ok <==> root_qc.certified() == root.spec_info() && root.wf() && (root.round == 0
                || root.spec_parent_id() != root.id),
    {
        let root_info = root.info();
        if !(root_qc.certified_block() == root_info) {
            return Err(ConsensusError::InvalidBlock);
        }
        if !root.check_well_formed() {
            return Err(ConsensusError::InvalidBlock);
        }
        if root.round > 0 && root.parent_id() == root.id {
            return Err(ConsensusError::InvalidBlock);
        }
        let root_id = root.id;
        let hqc = root_qc.clone();
        let mut blocks: Vec<ExecutedBlock> = Vec::new();
        blocks.push(
            ExecutedBlock { block: root, compute_result: StateComputeResult { version: root_version } },
        );
        let bs = BlockStore {
            root_id,
            blocks,
            highest_quorum_cert: root_qc,
            highest_commit_cert: hqc,
            highest_timeout_cert: None,
        };
        proof {
            assert(bs.blocks@[0].block.id == bs.root_id);
            assert(bs.spec_has_block(bs.root_id));
        }
        Ok(bs)
    }

    /// Looks a block up by id.
    pub fn get_block(&self, id: BlockId) -> (r: Option<&ExecutedBlock>)
        requires
            self.wf(),
        ensures
            r is Some <==> self.spec_has_block(id),
            r matches Some(b) ==> b.block.id == id && *b == self.spec_block(id),
    {
        let mut i: usize = 0;
        while i < self.blocks.len()
            invariant
                self.wf(),
                i <= self.blocks@.len(),
                forall|k: int| 0 <= k < i ==> self.blocks@[k].block.id != id,
            decreases self.blocks@.len() - i,
        {
            if self.blocks[i].block.id == id {
                proof {
                    assert(self.spec_has_block(id));
                    let j = self.spec_index_of(id);
                    assert(self.blocks@[j].block.id == id);
                    if (i as int) < j {
                        assert(self.blocks@[i as int].block.id != self.blocks@[j].block.id);
                    }
                    if j < (i as int) {
                        assert(self.blocks@[j].block.id != self.blocks@[i as int].block.id);
                    }
                    assert(j == i as int);
                }
                return Some(&self.blocks[i]);
            }
            i += 1;
        }
        None
    }

    /// Whether the block with this id already carries a quorum certificate
    /// known to the store (as the parent certificate of a stored child, or as
    /// the highest quorum certificate).
    pub fn get_quorum_cert_for_block(&self, id: BlockId) -> (r: bool)
        ensures
            r <==> spec_certified(*self, id),
    {
        if self.highest_quorum_cert.vote_data.proposed.id == id {
            return true;
        }
        let mut i: usize = 0;
        while i < self.blocks.len()
            invariant
                i <= self.blocks@.len(),
                forall|k: int|
                    0 <= k < i ==> (#[trigger] self.blocks@[k]).block.spec_parent_id() != id,
            decreases self.blocks@.len() - i,
        {
            if self.blocks[i].block.parent_id() == id {
                return true;
            }
            i += 1;
        }
        false
    }

    /// Executes a block on its parent's result and inserts it.
    ///
    /// Fails with `BlockNotFound` if the parent is absent, and with
    /// `InvalidBlock` if the block is malformed or contradicts the stored
    /// parent. Idempotent: a block whose id is already present returns the
    /// cached result and changes nothing. On a fresh insert the parent was
    /// already present — blocks only ever extend the DAG.
    #[verifier::rlimit(60)]
    pub fn execute_and_insert_block(&mut self, block: Block) -> (r: Result<
        StateComputeResult,
        ConsensusError,
    >)
        requires
            old(self).wf(),
        ensures
            final(self).wf(),
            final(self).root_id == old(self).root_id,
            final(self).highest_quorum_cert == old(self).highest_quorum_cert,
            final(self).highest_commit_cert == old(self).highest_commit_cert,
            final(self).highest_timeout_cert == old(self).highest_timeout_cert,
            r is Ok <==> old(self).spec_has_block(block.id) || (old(self).spec_has_block(
                block.spec_parent_id(),
            ) && block.wf() && block.quorum_cert.certified() == old(self).spec_block(
                block.spec_parent_id(),
            ).block.spec_info() && block.id != old(self).spec_block(
                old(self).root_id,
            ).block.spec_parent_id()),
            r is Ok ==> final(self).spec_has_block(block.id),
            old(self).spec_has_block(block.id) ==> (final(self).blocks@ == old(self).blocks@ && (r
                matches Ok(c) && c == old(self).spec_block(block.id).compute_result)),
            r is Ok && !old(self).spec_has_block(block.id) ==> {
                &&& old(self).spec_has_block(block.spec_parent_id())
                &&& final(self).blocks@.len() == old(self).blocks@.len() + 1
                &&& forall|k: int|
                    0 <= k < old(self).blocks@.len() ==> final(self).blocks@[k] == old(
                        self,
                    ).blocks@[k]
                &&& final(self).blocks@.last().block == block
                &&& final(self).blocks@.last().compute_result == spec_execute(
                    old(self).spec_block(block.spec_parent_id()).compute_result,
                    block.payload@.len(),
                )
                &&& r matches Ok(c) && c == final(self).blocks@.last().compute_result
            },
            r matches Err(e) ==> final(self).blocks@ == old(self).blocks@ && (e
                == ConsensusError::BlockNotFound || e == ConsensusError::InvalidBlock),
    {
        if let Some(existing) = self.get_block(block.id) {
            return Ok(existing.compute_result);
        }
        let parent_version: u64;
        let parent_info: BlockInfo;
        match self.get_block(block.parent_id()) {
            Some(parent) => {
                parent_version = parent.compute_result.version;
                parent_info = parent.block.info();
            },
            None => {
                return Err(ConsensusError::BlockNotFound);
            },
        }
        if !block.check_well_formed() {
            return Err(ConsensusError::InvalidBlock);
        }
        if !(block.quorum_cert.certified_block() == parent_info) {
            return Err(ConsensusError::InvalidBlock);
        }
        // A fresh block may not take the id of the pruned block below the
        // root: that would dangle a second parent link.
        let root_parent_id = match self.get_block(self.root_id) {
            Some(root_eb) => root_eb.block.parent_id(),
            None => {
                proof {
                    assert(false);
                }
                return Err(ConsensusError::InvalidBlock);
            },
        };
        if block.id == root_parent_id {
            return Err(ConsensusError::InvalidBlock);
        }
        let payload_len = block.payload.len() as u64;
        let version = if parent_version > u64::MAX - payload_len {
            u64::MAX
        } else {
            parent_version + payload_len
        };
        let compute_result = StateComputeResult { version };
        let ghost pre = *self;
        let ghost newb = block;
        self.blocks.push(ExecutedBlock { block, compute_result });
        proof {
            let post = *self;
            let n = post.blocks@.len() - 1;
            let pid = newb.spec_parent_id();
            let pj = pre.spec_index_of(pid);
            assert(pre.blocks@[pj].block.id == pid);
            assert(post.blocks@[n].block == newb);
            assert(post.spec_has_block(newb.id));
            // Ids stay unique: the new id was absent.
            assert forall|i: int, j: int| 0 <= i < j < post.blocks@.len() implies post.blocks@[i].block.id
                != post.blocks@[j].block.id by {
                if j == n {
                    assert(!pre.spec_has_block(newb.id));
                    assert(pre.blocks@[i].block.id != newb.id);
                }
            }
            // Every non-root block still has its parent present.
            assert forall|i: int|
                0 <= i < post.blocks@.len() && (#[trigger] post.blocks@[i]).block.id
                    != post.root_id implies post.spec_has_block(
                post.blocks@[i].block.spec_parent_id(),
            ) by {
                if i < n {
                    if pre.blocks@[i].block.id != pre.root_id {
                        let j = pre.spec_index_of(pre.blocks@[i].block.spec_parent_id());
                        assert(post.blocks@[j].block.id == post.blocks@[i].block.spec_parent_id());
                    }
                } else {
                    assert(post.blocks@[pj].block.id == pid);
                }
            }
            // Parent links still agree with the stored parent's data.
            assert forall|i: int, j: int|
                0 <= i < post.blocks@.len() && 0 <= j < post.blocks@.len()
                    && (#[trigger] post.blocks@[j]).block.id
                    == (#[trigger] post.blocks@[i]).block.spec_parent_id() implies post.blocks@[i].block.quorum_cert.certified()
                == post.blocks@[j].block.spec_info() by {
                if i == n {
                    // The new block's parent link: the unique block with the
                    // parent id is the parent that was checked.
                    if j < n {
                        if j < pj {
                            assert(pre.blocks@[j].block.id != pre.blocks@[pj].block.id);
                        }
                        if pj < j {
                            assert(pre.blocks@[pj].block.id != pre.blocks@[j].block.id);
                        }
                        assert(j == pj);
                    } else {
                        assert(!pre.spec_has_block(newb.id));
                        assert(pre.blocks@[pj].block.id != newb.id);
                        assert(false);
                    }
                } else if j == n {
                    // No old block's parent link may point at the fresh id.
                    if pre.blocks@[i].block.id != pre.root_id {
                        let k = pre.spec_index_of(pre.blocks@[i].block.spec_parent_id());
                        assert(pre.blocks@[k].block.id == newb.id);
                        assert(pre.spec_has_block(newb.id));
                        assert(false);
                    } else {
                        let ri = pre.spec_index_of(pre.root_id);
                        if i < ri {
                            assert(pre.blocks@[i].block.id != pre.blocks@[ri].block.id);
                        }
                        if ri < i {
                            assert(pre.blocks@[ri].block.id != pre.blocks@[i].block.id);
                        }
                        assert(i == ri);
                        assert(false);
                    }
                }
            }
            let rj = pre.spec_index_of(pre.root_id);
            assert(post.blocks@[rj].block.id == post.root_id);
        }
        Ok(compute_result)
    }

    /// Updates the highest quorum certificate and the highest commit
    /// certificate if this one reaches further. The certified block must be
    /// present and match the certificate.
    #[verifier::rlimit(60)]
    pub fn insert_single_quorum_cert(&mut self, qc: QuorumCert) -> (r: Result<(), ConsensusError>)
        requires
            old(self).wf(),
        ensures
            final(self).wf(),
            final(self).blocks@ == old(self).blocks@,
            final(self).root_id == old(self).root_id,
            final(self).highest_timeout_cert == old(self).highest_timeout_cert,
            r is Ok <==> old(self).spec_has_block(qc.certified().id) && old(self).spec_block(
                qc.certified().id,
            ).block.spec_info() == qc.certified(),
            r is Ok ==> {
                &&& (qc.certified().round > old(self).highest_quorum_cert.certified().round
                    ==> qc_eq(final(self).highest_quorum_cert, qc))
                &&& (qc.certified().round <= old(self).highest_quorum_cert.certified().round
                    ==> final(self).highest_quorum_cert == old(self).highest_quorum_cert)
                &&& (qc.spec_commit_round() > old(self).highest_commit_cert.spec_commit_round()
                    ==> qc_eq(final(self).highest_commit_cert, qc))
                &&& (qc.spec_commit_round() <= old(self).highest_commit_cert.spec_commit_round()
                    ==> final(self).highest_commit_cert == old(self).highest_commit_cert)
            },
            r is Err ==> *final(self) == *old(self),
            r matches Err(e) ==> e == ConsensusError::InvalidBlock || e
                == ConsensusError::BlockNotFound,
    {
        let certified = qc.certified_block();
        match self.get_block(certified.id) {
            Some(b) => {
                if !(b.block.info() == certified) {
                    return Err(ConsensusError::InvalidBlock);
                }
            },
            None => {
                return Err(ConsensusError::BlockNotFound);
            },
        }
        if qc.commit_round() > self.highest_commit_cert.commit_round() {
            self.highest_commit_cert = qc.clone();
        }
        if certified.round > self.highest_quorum_cert.vote_data.proposed.round {
            self.highest_quorum_cert = qc;
        }
        Ok(())
    }

    /// Updates the highest timeout certificate if this one is for a later
    /// round.
    pub fn insert_timeout_certificate(&mut self, tc: TimeoutCertificate)
        requires
            old(self).wf(),
        ensures
            final(self).wf(),
            final(self).blocks@ == old(self).blocks@,
            final(self).root_id == old(self).root_id,
            final(self).highest_quorum_cert == old(self).highest_quorum_cert,
            final(self).highest_commit_cert == old(self).highest_commit_cert,
            tc.round > spec_tc_round(old(self).highest_timeout_cert) ==> (final(self).highest_timeout_cert
                matches Some(t) && tc_eq(t, tc)),
            tc.round <= spec_tc_round(old(self).highest_timeout_cert)
                ==> final(self).highest_timeout_cert == old(self).highest_timeout_cert,
    {
        let current = match &self.highest_timeout_cert {
            Some(t) => t.round,
            None => 0,
        };
        if tc.round > current {
            self.highest_timeout_cert = Some(tc);
        }
    }

    /// A snapshot of the highest certificates.
    pub fn sync_info(&self) -> (r: SyncInfo)
        ensures
            qc_eq(r.highest_quorum_cert, self.highest_quorum_cert),
            qc_eq(r.highest_commit_cert, self.highest_commit_cert),
            match (r.highest_timeout_cert, self.highest_timeout_cert) {
                (Some(a), Some(b)) => tc_eq(a, b),
                (None, None) => true,
                _ => false,
            },
    {
        SyncInfo {
            highest_quorum_cert: self.highest_quorum_cert.clone(),
            highest_commit_cert: self.highest_commit_cert.clone(),
            highest_timeout_cert: match &self.highest_timeout_cert {
                Some(t) => Some(t.clone()),
                None => None,
            },
        }
    }

    /// The round of the root (last committed) block.
    pub fn root_round(&self) -> (r: Round)
        requires
            self.wf(),
        ensures
            r == self.spec_block(self.root_id).block.round,
    {
        match self.get_block(self.root_id) {
            Some(b) => b.block.round,
            None => {
                proof {
                    assert(false);
                }
                0
            },
        }
    }
}

/// Every block in a well-formed store, other than the root, references a
/// parent that is itself in the store. Insertion establishes this — a block
/// only enters over a present parent — and pruning keeps exactly the
/// committed block and blocks whose parents are kept, so the store never
/// holds a dangling branch.
pub proof fn lemma_parent_always_present(bs: BlockStore, id: BlockId)
    requires
        bs.wf(),
        bs.spec_has_block(id),
        id != bs.root_id,
    ensures
        bs.spec_has_block(bs.spec_block(id).block.spec_parent_id()),
{
    let i = bs.spec_index_of(id);
    assert(bs.blocks@[i].block.id == id);
}

/// Whether the store already holds a quorum certificate for this block: as
/// the highest certificate, or inside a stored child.
pub open spec fn spec_certified(bs: BlockStore, id: BlockId) -> bool {
    ||| bs.highest_quorum_cert.certified().id == id
    ||| exists|i: int|
        0 <= i < bs.blocks@.len() && (#[trigger] bs.blocks@[i]).block.spec_parent_id() == id
}

/// The conditions under which a certificate can be taken in as it stands:
/// its certified block is stored and matches it, and any commit it carries
/// is already behind the root or targets a stored matching block.
pub open spec fn spec_cert_insertable(bs: BlockStore, qc: QuorumCert) -> bool {
    &&& bs.spec_has_block(qc.certified().id)
    &&& bs.spec_block(qc.certified().id).block.spec_info() == qc.certified()
    &&& match qc.commit_info {
        Some(c) => c.round <= bs.spec_block(bs.root_id).block.round || (bs.spec_has_block(c.id)
            && bs.spec_block(c.id).block.spec_info() == c),
        None => true,
    }
}

/// The round of an optional timeout certificate, 0 without one.
pub open spec fn spec_tc_round(tc: Option<TimeoutCertificate>) -> Round {
    match tc {
        Some(t) => t.round,
        None => 0,
    }
}

/// Whether a block with this id occurs in the list.
pub fn contains_block_id(v: &Vec<ExecutedBlock>, id: BlockId) -> (r: bool)
    ensures
        r == exists|i: int| 0 <= i < v@.len() && (#[trigger] v@[i]).block.id == id,
{
    let mut i: usize = 0;
    while i < v.len()
        invariant
            i <= v@.len(),
            forall|k: int| 0 <= k < i ==> (#[trigger] v@[k]).block.id != id,
        decreases v@.len() - i,
    {
        if v[i].block.id == id {
            return true;
        }
        i += 1;
    }
    false
}

/// The index of a block whose parent is already kept, if any.
fn find_movable(blocks: &Vec<ExecutedBlock>, kept: &Vec<ExecutedBlock>) -> (r: Option<usize>)
    ensures
        r matches Some(fi) ==> fi < blocks@.len() && exists|m: int|
            0 <= m < kept@.len() && (#[trigger] kept@[m]).block.id
                == blocks@[fi as int].block.spec_parent_id(),
        r is None ==> forall|k: int|
            0 <= k < blocks@.len() ==> !exists|m: int|
                0 <= m < kept@.len() && (#[trigger] kept@[m]).block.id == (
                #[trigger] blocks@[k]).block.spec_parent_id(),
{
    let mut i: usize = 0;
    while i < blocks.len()
        invariant
            i <= blocks@.len(),
            forall|k: int|
                0 <= k < i ==> !exists|m: int|
                    0 <= m < kept@.len() && (#[trigger] kept@[m]).block.id == (
                    #[trigger] blocks@[k]).block.spec_parent_id(),
        decreases blocks@.len() - i,
    {
        if contains_block_id(kept, blocks[i].block.parent_id()) {
            return Some(i);
        }
        i += 1;
    }
    None
}

/// One step of the pruning fix-point: moving a block whose parent is kept
/// from the remaining list to the kept list preserves the pruning
/// invariants.
proof fn lemma_move_step(
    pre_all: Seq<ExecutedBlock>,
    kept0: Seq<ExecutedBlock>,
    rem0: Seq<ExecutedBlock>,
    kept1: Seq<ExecutedBlock>,
    rem1: Seq<ExecutedBlock>,
    fi: int,
)
    requires
        0 <= fi < rem0.len(),
        rem1 == rem0.remove(fi),
        kept1 == kept0.push(rem0[fi]),
        kept0.len() >= 1,
        forall|k: int| 0 <= k < kept0.len() ==> pre_all.contains(#[trigger] kept0[k]),
        forall|k: int| 0 <= k < rem0.len() ==> pre_all.contains(#[trigger] rem0[k]),
        forall|a: int, b: int|
            0 <= a < b < kept0.len() ==> kept0[a].block.id != kept0[b].block.id,
        forall|a: int, b: int| 0 <= a < b < rem0.len() ==> rem0[a].block.id != rem0[b].block.id,
        forall|a: int, b: int|
            0 <= a < kept0.len() && 0 <= b < rem0.len() ==> (#[trigger] kept0[a]).block.id != (
            #[trigger] rem0[b]).block.id,
        forall|k: int|
            1 <= k < kept0.len() ==> exists|m: int|
                0 <= m < kept0.len() && (#[trigger] kept0[k]).block.spec_parent_id()
                    == kept0[m].block.id,
        exists|m: int|
            0 <= m < kept0.len() && (#[trigger] kept0[m]).block.id
                == rem0[fi].block.spec_parent_id(),
        forall|k: int|
            0 <= k < pre_all.len() ==> kept0.contains(#[trigger] pre_all[k]) || rem0.contains(
                pre_all[k],
            ),
    ensures
        kept1.len() >= 1,
        kept1[0] == kept0[0],
        forall|k: int| 0 <= k < kept1.len() ==> pre_all.contains(#[trigger] kept1[k]),
        forall|k: int| 0 <= k < rem1.len() ==> pre_all.contains(#[trigger] rem1[k]),
        forall|a: int, b: int|
            0 <= a < b < kept1.len() ==> kept1[a].block.id != kept1[b].block.id,
        forall|a: int, b: int| 0 <= a < b < rem1.len() ==> rem1[a].block.id != rem1[b].block.id,
        forall|a: int, b: int|
            0 <= a < kept1.len() && 0 <= b < rem1.len() ==> (#[trigger] kept1[a]).block.id != (
            #[trigger] rem1[b]).block.id,
        forall|k: int|
            1 <= k < kept1.len() ==> exists|m: int|
                0 <= m < kept1.len() && (#[trigger] kept1[k]).block.spec_parent_id()
                    == kept1[m].block.id,
        forall|k: int|
            0 <= k < pre_all.len() ==> kept1.contains(#[trigger] pre_all[k]) || rem1.contains(
                pre_all[k],
            ),
{
    let moved = rem0[fi];
    assert forall|k: int| 0 <= k < rem1.len() implies pre_all.contains(#[trigger] rem1[k]) by {
        let k2 = if k < fi {
            k
        } else {
            k + 1
        };
        assert(rem1[k] == rem0[k2]);
    }
    assert forall|a: int, b: int| 0 <= a < b < rem1.len() implies rem1[a].block.id
        != rem1[b].block.id by {
        let a2 = if a < fi {
            a
        } else {
            a + 1
        };
        let b2 = if b < fi {
            b
        } else {
            b + 1
        };
        assert(rem1[a] == rem0[a2] && rem1[b] == rem0[b2]);
    }
    assert forall|a: int, b: int|
        0 <= a < kept1.len() && 0 <= b < rem1.len() implies (#[trigger] kept1[a]).block.id != (
    #[trigger] rem1[b]).block.id by {
        let b2 = if b < fi {
            b
        } else {
            b + 1
        };
        assert(rem1[b] == rem0[b2]);
        if a == kept1.len() - 1 {
            assert(kept1[a] == moved);
            assert(rem0[fi].block.id != rem0[b2].block.id);
        } else {
            assert(kept1[a] == kept0[a]);
        }
    }
    let m0 = choose|m: int|
        0 <= m < kept0.len() && (#[trigger] kept0[m]).block.id == moved.block.spec_parent_id();
    assert forall|k: int| 1 <= k < kept1.len() implies exists|m: int|
        0 <= m < kept1.len() && (#[trigger] kept1[k]).block.spec_parent_id()
            == kept1[m].block.id by {
        if k < kept1.len() - 1 {
            let m = choose|m: int|
                0 <= m < kept0.len() && kept0[k].block.spec_parent_id() == kept0[m].block.id;
            assert(kept1[m].block.id == kept1[k].block.spec_parent_id());
        } else {
            assert(kept1[m0].block.id == kept1[k].block.spec_parent_id());
        }
    }
    assert forall|k: int| 0 <= k < pre_all.len() implies kept1.contains(#[trigger] pre_all[k])
        || rem1.contains(pre_all[k]) by {
        if kept0.contains(pre_all[k]) {
            let w = choose|w: int| 0 <= w < kept0.len() && kept0[w] == pre_all[k];
            assert(kept1[w] == pre_all[k]);
        } else {
            let w = choose|w: int| 0 <= w < rem0.len() && rem0[w] == pre_all[k];
            if w == fi {
                assert(kept1[kept1.len() - 1] == pre_all[k]);
            } else {
                let w2 = if w < fi {
                    w
                } else {
                    w - 1
                };
                assert(rem1[w2] == pre_all[k]);
            }
        }
    }
}

/// Removing the committed root from the old block list keeps the rest
/// unique, disjoint from it, and jointly exhaustive with it.
proof fn lemma_prune_init(pre_all: Seq<ExecutedBlock>, rem1: Seq<ExecutedBlock>, ri: int)
    requires
        forall|a: int, b: int|
            0 <= a < b < pre_all.len() ==> pre_all[a].block.id != pre_all[b].block.id,
        0 <= ri < pre_all.len(),
        rem1 == pre_all.remove(ri),
    ensures
        forall|k: int| 0 <= k < rem1.len() ==> pre_all.contains(#[trigger] rem1[k]),
        forall|a: int, b: int| 0 <= a < b < rem1.len() ==> rem1[a].block.id != rem1[b].block.id,
        forall|b: int| 0 <= b < rem1.len() ==> pre_all[ri].block.id != (
        #[trigger] rem1[b]).block.id,
        forall|k: int| 0 <= k < pre_all.len() && k != ri ==> rem1.contains(#[trigger] pre_all[k]),
{
    assert forall|k: int| 0 <= k < rem1.len() implies pre_all.contains(#[trigger] rem1[k]) by {
        let k2 = if k < ri {
            k
        } else {
            k + 1
        };
        assert(pre_all[k2] == rem1[k]);
    }
    assert forall|a: int, b: int| 0 <= a < b < rem1.len() implies rem1[a].block.id
        != rem1[b].block.id by {
        let a2 = if a < ri {
            a
        } else {
            a + 1
        };
        let b2 = if b < ri {
            b
        } else {
            b + 1
        };
        assert(rem1[a] == pre_all[a2] && rem1[b] == pre_all[b2]);
    }
    assert forall|b: int| 0 <= b < rem1.len() implies pre_all[ri].block.id != (
    #[trigger] rem1[b]).block.id by {
        let b2 = if b < ri {
            b
        } else {
            b + 1
        };
        assert(rem1[b] == pre_all[b2]);
    }
    assert forall|k: int| 0 <= k < pre_all.len() && k != ri implies rem1.contains(
        #[trigger] pre_all[k],
    ) by {
        let k2 = if k < ri {
            k
        } else {
            k - 1
        };
        assert(rem1[k2] == pre_all[k]);
    }
}

/// The pruning fix-point has converged: the kept blocks form a well-formed
/// DAG rooted at the committed block, and any old block whose parent is
/// kept was kept itself.
proof fn lemma_prune_post(
    pre: BlockStore,
    post: BlockStore,
    remaining: Seq<ExecutedBlock>,
    new_root_id: BlockId,
)
    requires
        pre.wf(),
        post.root_id == new_root_id,
        post.blocks@.len() >= 1,
        post.blocks@[0].block.id == new_root_id,
        forall|k: int| 0 <= k < post.blocks@.len() ==> pre.blocks@.contains(
            #[trigger] post.blocks@[k],
        ),
        forall|a: int, b: int|
            0 <= a < b < post.blocks@.len() ==> post.blocks@[a].block.id
                != post.blocks@[b].block.id,
        forall|a: int, b: int|
            0 <= a < post.blocks@.len() && 0 <= b < remaining.len() ==> (
            #[trigger] post.blocks@[a]).block.id != (#[trigger] remaining[b]).block.id,
        forall|k: int|
            1 <= k < post.blocks@.len() ==> exists|m: int|
                0 <= m < post.blocks@.len() && (#[trigger] post.blocks@[k]).block.spec_parent_id()
                    == post.blocks@[m].block.id,
        forall|k: int|
            0 <= k < pre.blocks@.len() ==> post.blocks@.contains(#[trigger] pre.blocks@[k])
                || remaining.contains(pre.blocks@[k]),
        forall|k: int|
            0 <= k < remaining.len() ==> !exists|m: int|
                0 <= m < post.blocks@.len() && (#[trigger] post.blocks@[m]).block.id == (
                #[trigger] remaining[k]).block.spec_parent_id(),
    ensures
        post.spec_has_block(new_root_id),
        forall|i: int|
            0 <= i < post.blocks@.len() ==> (#[trigger] post.blocks@[i]).block.wf(),
        forall|i: int|
            0 <= i < post.blocks@.len() && (#[trigger] post.blocks@[i]).block.id != post.root_id
                ==> post.spec_has_block(post.blocks@[i].block.spec_parent_id()),
        forall|i: int, j: int|
            0 <= i < post.blocks@.len() && 0 <= j < post.blocks@.len()
                && (#[trigger] post.blocks@[j]).block.id
                == (#[trigger] post.blocks@[i]).block.spec_parent_id()
                ==> post.blocks@[i].block.quorum_cert.certified()
                == post.blocks@[j].block.spec_info(),
        forall|i: int|
            0 <= i < pre.blocks@.len() && post.spec_has_block(
                (#[trigger] pre.blocks@[i]).block.spec_parent_id(),
            ) ==> post.blocks@.contains(pre.blocks@[i]),
{
    assert(post.spec_has_block(new_root_id));
    assert forall|i: int|
        0 <= i < post.blocks@.len() implies (#[trigger] post.blocks@[i]).block.wf() by {
        let oi = choose|o: int| 0 <= o < pre.blocks@.len() && pre.blocks@[o] == post.blocks@[i];
        assert(pre.blocks@[oi].block.wf());
    }
    assert forall|i: int|
        0 <= i < post.blocks@.len() && (#[trigger] post.blocks@[i]).block.id
            != post.root_id implies post.spec_has_block(
        post.blocks@[i].block.spec_parent_id(),
    ) by {
        if i == 0 {
            assert(false);
        } else {
            let m = choose|m: int|
                0 <= m < post.blocks@.len() && post.blocks@[i].block.spec_parent_id()
                    == post.blocks@[m].block.id;
            assert(post.blocks@[m].block.id == post.blocks@[i].block.spec_parent_id());
        }
    }
    assert forall|i: int, j: int|
        0 <= i < post.blocks@.len() && 0 <= j < post.blocks@.len()
            && (#[trigger] post.blocks@[j]).block.id
            == (#[trigger] post.blocks@[i]).block.spec_parent_id() implies post.blocks@[i].block.quorum_cert.certified()
        == post.blocks@[j].block.spec_info() by {
        let oi = choose|o: int| 0 <= o < pre.blocks@.len() && pre.blocks@[o] == post.blocks@[i];
        let oj = choose|o: int| 0 <= o < pre.blocks@.len() && pre.blocks@[o] == post.blocks@[j];
        assert(pre.blocks@[oj].block.id == pre.blocks@[oi].block.spec_parent_id());
    }
    assert forall|i: int|
        0 <= i < pre.blocks@.len() && post.spec_has_block(
            (#[trigger] pre.blocks@[i]).block.spec_parent_id(),
        ) implies post.blocks@.contains(pre.blocks@[i]) by {
        if !post.blocks@.contains(pre.blocks@[i]) {
            assert(remaining.contains(pre.blocks@[i]));
            let w = choose|w: int| 0 <= w < remaining.len() && remaining[w] == pre.blocks@[i];
            let pm = post.spec_index_of(pre.blocks@[i].block.spec_parent_id());
            assert(post.blocks@[pm].block.id == pre.blocks@[i].block.spec_parent_id());
            assert(false);
        }
    }
}

impl BlockStore {
    /// Prunes the DAG on a commit: keeps the newly committed block and the
    /// blocks that descend from it, and makes it the root. Every kept block
    /// was present before; the certificates are untouched.
    #[verifier::rlimit(100)]
    pub fn prune_to(&mut self, new_root_id: BlockId)
        requires
            old(self).wf(),
            old(self).spec_has_block(new_root_id),
        ensures
            final(self).wf(),
            final(self).root_id == new_root_id,
            final(self).spec_has_block(new_root_id),
            final(self).highest_quorum_cert == old(self).highest_quorum_cert,
            final(self).highest_commit_cert == old(self).highest_commit_cert,
            final(self).highest_timeout_cert == old(self).highest_timeout_cert,
            forall|i: int|
                0 <= i < final(self).blocks@.len() ==> old(self).blocks@.contains(
                    #[trigger] final(self).blocks@[i],
                ),
            // The committed branch is retained: a block whose parent
            // survives survives itself.
            forall|i: int|
                0 <= i < old(self).blocks@.len() && final(self).spec_has_block(
                    (#[trigger] old(self).blocks@[i]).block.spec_parent_id(),
                ) ==> final(self).blocks@.contains(old(self).blocks@[i]),
    {
        let ghost pre = *self;
        // Move the new root out of the block list.
        let mut ri: usize = 0;
        while ri < self.blocks.len() && self.blocks[ri].block.id != new_root_id
            invariant
                ri <= self.blocks@.len(),
                forall|k: int| 0 <= k < ri ==> (#[trigger] self.blocks@[k]).block.id != new_root_id,
                *self == pre,
            decreases self.blocks@.len() - ri,
        {
            ri += 1;
        }
        proof {
            assert(ri < self.blocks@.len());
        }
        let root_eb = self.blocks.remove(ri);
        let mut kept: Vec<ExecutedBlock> = Vec::new();
        kept.push(root_eb);
        proof {
            lemma_prune_init(pre.blocks@, self.blocks@, ri as int);
            assert forall|k: int| 0 <= k < pre.blocks@.len() implies kept@.contains(
                #[trigger] pre.blocks@[k],
            ) || self.blocks@.contains(pre.blocks@[k]) by {
                if k == ri as int {
                    assert(kept@[0] == pre.blocks@[k]);
                }
            }
        }

        // Repeatedly move over any block whose parent is already kept.
        loop
            invariant
                kept@.len() >= 1,
                kept@[0].block.id == new_root_id,
                forall|k: int| 0 <= k < kept@.len() ==> pre.blocks@.contains(#[trigger] kept@[k]),
                forall|k: int|
                    0 <= k < self.blocks@.len() ==> pre.blocks@.contains(
                        #[trigger] self.blocks@[k],
                    ),
                forall|a: int, b: int|
                    0 <= a < b < kept@.len() ==> kept@[a].block.id != kept@[b].block.id,
                forall|a: int, b: int|
                    0 <= a < b < self.blocks@.len() ==> self.blocks@[a].block.id
                        != self.blocks@[b].block.id,
                forall|a: int, b: int|
                    0 <= a < kept@.len() && 0 <= b < self.blocks@.len() ==> (
                    #[trigger] kept@[a]).block.id != (#[trigger] self.blocks@[b]).block.id,
                forall|k: int|
                    1 <= k < kept@.len() ==> exists|m: int|
                        0 <= m < kept@.len() && (#[trigger] kept@[k]).block.spec_parent_id()
                            == kept@[m].block.id,
                forall|k: int|
                    0 <= k < pre.blocks@.len() ==> kept@.contains(#[trigger] pre.blocks@[k])
                        || self.blocks@.contains(pre.blocks@[k]),
                self.root_id == pre.root_id,
                self.highest_quorum_cert == pre.highest_quorum_cert,
                self.highest_commit_cert == pre.highest_commit_cert,
                self.highest_timeout_cert == pre.highest_timeout_cert,
            ensures
                forall|k: int|
                    0 <= k < self.blocks@.len() ==> !exists|m: int|
                        0 <= m < kept@.len() && (#[trigger] kept@[m]).block.id == (
                        #[trigger] self.blocks@[k]).block.spec_parent_id(),
            decreases self.blocks@.len(),
        {
            let movable = find_movable(&self.blocks, &kept);
            let fi = match movable {
                Some(fi) => fi,
                None => {
                    break;
                },
            };
            let ghost kept0 = kept@;
            let ghost rem0 = self.blocks@;
            let eb = self.blocks.remove(fi);
            kept.push(eb);
            proof {
                lemma_move_step(pre.blocks@, kept0, rem0, kept@, self.blocks@, fi as int);
            }
        }

        let ghost remaining = self.blocks@;
        self.blocks = kept;
        self.root_id = new_root_id;
        proof {
            lemma_prune_post(pre, *self, remaining, new_root_id);
        }
    }

    /// Whether a block with this id is in the store.
    pub fn has_block(&self, id: BlockId) -> (r: bool)
        ensures
            r == self.spec_has_block(id),
    {
        contains_block_id(&self.blocks, id)
    }

    /// Executes and inserts fetched ancestor blocks, parent first; blocks
    /// that do not connect to the DAG are ignored.
    fn connect_retrieved(&mut self, retrieved: &Vec<Block>)
        requires
            old(self).wf(),
        ensures
            final(self).wf(),
            final(self).root_id == old(self).root_id,
            final(self).highest_quorum_cert == old(self).highest_quorum_cert,
            final(self).highest_commit_cert == old(self).highest_commit_cert,
            final(self).highest_timeout_cert == old(self).highest_timeout_cert,
    {
        let mut k = retrieved.len();
        while k > 0
            invariant
                k <= retrieved@.len(),
                self.wf(),
                self.root_id == old(self).root_id,
                self.highest_quorum_cert == old(self).highest_quorum_cert,
                self.highest_commit_cert == old(self).highest_commit_cert,
                self.highest_timeout_cert == old(self).highest_timeout_cert,
            decreases k,
        {
            k -= 1;
            let b = retrieved[k].clone();
            let _ = self.execute_and_insert_block(b);
        }
    }

    /// Connects a certificate's certified block from retrieved ancestors if
    /// it is missing, then takes the certificate in — without committing.
    ///
    /// `retrieved` holds ancestor blocks fetched from a peer, child first,
    /// as a block retriever returns them; blocks that do not connect are
    /// ignored.
    fn bring_in_cert(&mut self, qc: &QuorumCert, retrieved: &Vec<Block>) -> (r: Result<
        (),
        ConsensusError,
    >)
        requires
            old(self).wf(),
        ensures
            final(self).wf(),
            final(self).root_id == old(self).root_id,
            final(self).highest_timeout_cert == old(self).highest_timeout_cert,
            r is Ok ==> final(self).spec_has_block(qc.certified().id),
            r is Ok ==> final(self).highest_quorum_cert.certified().round >= qc.certified().round
                && final(self).highest_quorum_cert.certified().round >= old(
                self,
            ).highest_quorum_cert.certified().round,
            r is Ok ==> final(self).highest_commit_cert.spec_commit_round()
                >= qc.spec_commit_round() && final(self).highest_commit_cert.spec_commit_round()
                >= old(self).highest_commit_cert.spec_commit_round(),
            r matches Err(e) ==> e == ConsensusError::MissingBlocks || e
                == ConsensusError::InvalidBlock || e == ConsensusError::BlockNotFound,
            // Intake is owed when the certified block is already stored and
            // matches the certificate, and then the block list is untouched.
            old(self).spec_has_block(qc.certified().id) ==> final(self).blocks@ == old(self).blocks@,
            old(self).spec_has_block(qc.certified().id) && old(self).spec_block(
                qc.certified().id,
            ).block.spec_info() == qc.certified() ==> r is Ok,
            r is Ok ==> final(self).highest_quorum_cert.certified().round <= max64(
                old(self).highest_quorum_cert.certified().round,
                qc.certified().round,
            ),
    {
        if !self.has_block(qc.certified_block().id) {
            self.connect_retrieved(retrieved);
            if !self.has_block(qc.certified_block().id) {
                return Err(ConsensusError::MissingBlocks);
            }
        }
        self.insert_single_quorum_cert(qc.clone())
    }

    /// Inserts a quorum certificate, first connecting its certified block
    /// from retrieved ancestors if it is missing, and commits (prunes to) the
    /// block the certificate commits if that reaches past the root.
    ///
    /// Fails with `MissingBlocks` if the certified or committed block still
    /// cannot be found, without moving the root.
    #[verifier::rlimit(100)]
    pub fn insert_quorum_cert(&mut self, qc: &QuorumCert, retrieved: &Vec<Block>) -> (r: Result<
        Option<BlockInfo>,
        ConsensusError,
    >)
        requires
            old(self).wf(),
        ensures
            final(self).wf(),
            r matches Ok(None) ==> final(self).spec_has_block(qc.certified().id),
            r matches Ok(Some(c)) ==> qc.commit_info == Some(c) && final(self).root_id == c.id
                && final(self).spec_has_block(c.id),
            r matches Ok(None) ==> final(self).root_id == old(self).root_id,
            r is Err ==> final(self).root_id == old(self).root_id,
            r is Ok ==> final(self).highest_quorum_cert.certified().round >= qc.certified().round
                && final(self).highest_quorum_cert.certified().round >= old(
                self,
            ).highest_quorum_cert.certified().round,
            r matches Err(e) ==> e == ConsensusError::MissingBlocks || e
                == ConsensusError::InvalidBlock || e == ConsensusError::BlockNotFound,
            // Insertion is owed for a certificate the store can take as it
            // stands.
            spec_cert_insertable(*old(self), *qc) ==> r is Ok,
            r is Ok ==> final(self).highest_quorum_cert.certified().round <= max64(
                old(self).highest_quorum_cert.certified().round,
                qc.certified().round,
            ),
            final(self).highest_timeout_cert == old(self).highest_timeout_cert,
    {
        match self.bring_in_cert(qc, retrieved) {
            Ok(()) => {},
            Err(e) => {
                return Err(e);
            },
        }
        let commit = match qc.commit_info {
            Some(c) => c,
            None => {
                return Ok(None);
            },
        };
        match self.commit_if_newer(commit) {
            Ok(true) => Ok(Some(commit)),
            Ok(false) => Ok(None),
            Err(e) => Err(e),
        }
    }

    /// Commits the given block — prunes the DAG to it — if its round reaches
    /// past the current root. Returns whether the root moved.
    fn commit_if_newer(&mut self, commit: BlockInfo) -> (r: Result<bool, ConsensusError>)
        requires
            old(self).wf(),
        ensures
            final(self).wf(),
            final(self).highest_quorum_cert == old(self).highest_quorum_cert,
            final(self).highest_commit_cert == old(self).highest_commit_cert,
            final(self).highest_timeout_cert == old(self).highest_timeout_cert,
            r matches Ok(true) ==> final(self).root_id == commit.id && final(self).spec_has_block(
                commit.id,
            ),
            !(r matches Ok(true)) ==> *final(self) == *old(self),
            forall|id: BlockId|
                old(self).spec_has_block(id) || !final(self).spec_has_block(id),
            r matches Err(e) ==> e == ConsensusError::InvalidBlock || e
                == ConsensusError::MissingBlocks,
            // Committing is owed when the target is behind the root already
            // or stored and matching.
            commit.round <= old(self).spec_block(old(self).root_id).block.round || (old(
                self,
            ).spec_has_block(commit.id) && old(self).spec_block(commit.id).block.spec_info()
                == commit) ==> r is Ok,
    {
        if commit.round <= self.root_round() {
            return Ok(false);
        }
        match self.get_block(commit.id) {
            Some(b) => {
                if !(b.block.info() == commit) {
                    return Err(ConsensusError::InvalidBlock);
                }
            },
            None => {
                return Err(ConsensusError::MissingBlocks);
            },
        }
        self.prune_to(commit.id);
        proof {
            assert forall|id: BlockId|
                old(self).spec_has_block(id) || !self.spec_has_block(id) by {
                if self.spec_has_block(id) {
                    let i = self.spec_index_of(id);
                    assert(old(self).blocks@.contains(self.blocks@[i]));
                    let o = choose|o: int|
                        0 <= o < old(self).blocks@.len() && old(self).blocks@[o]
                            == self.blocks@[i];
                    assert(old(self).blocks@[o].block.id == id);
                }
            }
        }
        Ok(true)
    }

    /// Brings in all certificates of a sync snapshot: the timeout
    /// certificate, the commit certificate and the quorum certificate — and
    /// only then, once every certificate is safely in, commits (prunes to)
    /// the furthest block they commit, so a failure part-way never loses a
    /// commit. Returns the newly committed block, if any.
    pub fn add_certs(&mut self, sync_info: &SyncInfo, retrieved: &Vec<Block>) -> (r: Result<
        Option<BlockInfo>,
        ConsensusError,
    >)
        requires
            old(self).wf(),
        ensures
            final(self).wf(),
            r matches Ok(None) ==> final(self).spec_has_block(
                sync_info.highest_quorum_cert.certified().id,
            ) && final(self).root_id == old(self).root_id,
            r matches Ok(Some(c)) ==> final(self).root_id == c.id && final(self).spec_has_block(
                c.id,
            ),
            // On success the store's certificates dominate the snapshot's.
            r is Ok ==> final(self).highest_quorum_cert.certified().round
                >= sync_info.highest_quorum_cert.certified().round && spec_tc_round(
                final(self).highest_timeout_cert,
            ) >= sync_info.spec_timeout_round()
                && final(self).highest_commit_cert.spec_commit_round()
                >= sync_info.spec_commit_round(),
            // A failure never moves the root: the commit is deferred until
            // every certificate is in.
            r is Err ==> final(self).root_id == old(self).root_id,
            r matches Err(e) ==> e == ConsensusError::MissingBlocks || e
                == ConsensusError::InvalidBlock || e == ConsensusError::BlockNotFound,
            // Intake of a whole snapshot is owed when both certificates can
            // be taken as they stand.
            spec_cert_insertable(*old(self), sync_info.highest_commit_cert)
                && spec_cert_insertable(*old(self), sync_info.highest_quorum_cert) ==> r is Ok,
            // The certificates never outrun the snapshot and the old state.
            r is Ok ==> final(self).highest_quorum_cert.certified().round <= max64(
                old(self).highest_quorum_cert.certified().round,
                max64(
                    sync_info.highest_quorum_cert.certified().round,
                    sync_info.highest_commit_cert.certified().round,
                ),
            ) && spec_tc_round(final(self).highest_timeout_cert) <= max64(
                spec_tc_round(old(self).highest_timeout_cert),
                sync_info.spec_timeout_round(),
            ),
    {
        match &sync_info.highest_timeout_cert {
            Some(tc) => {
                let tcc = tc.clone();
                self.insert_timeout_certificate(tcc);
            },
            None => {},
        }
        match self.bring_in_cert(&sync_info.highest_commit_cert, retrieved) {
            Ok(()) => {},
            Err(e) => {
                return Err(e);
            },
        }
        match self.bring_in_cert(&sync_info.highest_quorum_cert, retrieved) {
            Ok(()) => {},
            Err(e) => {
                return Err(e);
            },
        }
        // The furthest commit either certificate carries.
        let commit: Option<BlockInfo> = if sync_info.highest_quorum_cert.commit_round()
            >= sync_info.highest_commit_cert.commit_round() {
            sync_info.highest_quorum_cert.commit_info
        } else {
            sync_info.highest_commit_cert.commit_info
        };
        let c = match commit {
            Some(c) => c,
            None => {
                return Ok(None);
            },
        };
        match self.commit_if_newer(c) {
            Ok(true) => Ok(Some(c)),
            Ok(false) => Ok(None),
            Err(e) => Err(e),
        }
    }
}

/// What a replica needs to rejoin after falling behind: the committed block
/// to root a fresh store at, the certificate that certifies it, and the
/// suffix of blocks above it, parent first.
#[derive(Debug)]
pub struct RecoveryData {
    pub epoch: u64,
    pub root_block: Block,
    pub root_qc: QuorumCert,
    pub suffix: Vec<Block>,
}

/// Rebuilds the state a remote commit certificate certifies: finds the
/// committed block in the fetched chain and cuts the chain there.
///
/// `retrieved` must be a child-first chain starting at the certificate's
/// certified block, each block's certificate carrying its parent's data, and
/// must reach the committed block. The returned root is the committed block,
/// its certificate is the child's (which certifies it), and the suffix holds
/// the blocks above it, parent first, ready to re-execute.
pub fn fast_forward_sync(commit_qc: &QuorumCert, retrieved: &Vec<Block>) -> (r: Result<
    RecoveryData,
    ConsensusError,
>)
    ensures
        r matches Ok(rd) ==> {
            &&& commit_qc.commit_info matches Some(c) && rd.root_block.id == c.id
                && rd.root_block.spec_info() == c && rd.epoch == c.epoch
            &&& rd.root_qc.certified() == rd.root_block.spec_info()
        },
        // Recovery is owed exactly when the certificate commits a block, the
        // fetched blocks chain from its certified block, and the committed
        // block is reached.
        r is Ok <==> (commit_qc.commit_info matches Some(c) && retrieved@.len() > 0
            && retrieved@[0].spec_info() == commit_qc.certified() && spec_chain_links(retrieved@)
            && spec_first_match(retrieved@, c)),
        // The result is cut from the fetched chain: the committed block
        // becomes the root, its child's certificate certifies it, and the
        // suffix holds the blocks above it, parent first.
        r matches Ok(rd) ==> (commit_qc.commit_info matches Some(c) && exists|k: int|
            {
                &&& #[trigger] spec_is_first_match_at(retrieved@, c, k)
                &&& block_eq(rd.root_block, retrieved@[k])
                &&& rd.suffix@.len() == k
                &&& (forall|m: int|
                    0 <= m < k ==> block_eq(#[trigger] rd.suffix@[m], retrieved@[k - 1 - m]))
                &&& (k > 0 ==> qc_eq(rd.root_qc, retrieved@[k - 1].quorum_cert))
                &&& (k == 0 ==> qc_eq(rd.root_qc, *commit_qc))
            }),
{
    let commit = match commit_qc.commit_info {
        Some(c) => c,
        None => {
            return Err(ConsensusError::InvalidSyncInfo);
        },
    };
    if retrieved.len() == 0 {
        return Err(ConsensusError::MissingBlocks);
    }
    if !(retrieved[0].info() == commit_qc.certified_block()) {
        return Err(ConsensusError::InvalidBlock);
    }
    // Check the chain links and look for the committed block.
    let n = retrieved.len();
    let mut i: usize = 0;
    while i + 1 < n
        invariant
            n == retrieved@.len(),
            i < n,
            forall|k: int|
                0 <= k < i ==> (#[trigger] retrieved@[k]).quorum_cert.certified()
                    == retrieved@[k + 1].spec_info(),
        decreases retrieved@.len() - i,
    {
        if !(retrieved[i].quorum_cert.certified_block() == retrieved[i + 1].info()) {
            return Err(ConsensusError::InvalidBlock);
        }
        i += 1;
    }
    let mut k: usize = 0;
    while k < retrieved.len() && !(retrieved[k].id == commit.id)
        invariant
            k <= retrieved@.len(),
            forall|j: int| 0 <= j < k ==> (#[trigger] retrieved@[j]).id != commit.id,
        decreases retrieved@.len() - k,
    {
        k += 1;
    }
    if k == retrieved.len() {
        proof {
            assert(!spec_first_match(retrieved@, commit));
        }
        return Err(ConsensusError::MissingBlocks);
    }
    if !(retrieved[k].info() == commit) {
        proof {
            assert forall|k2: int| !spec_is_first_match_at(retrieved@, commit, k2) by {
                if spec_is_first_match_at(retrieved@, commit, k2) {
                    if k2 < k as int {
                        assert(retrieved@[k2].id != commit.id);
                    }
                    if (k as int) < k2 {
                        assert(retrieved@[k as int].id != commit.id);
                    }
                    assert(k2 == k as int);
                }
            }
        }
        return Err(ConsensusError::InvalidBlock);
    }
    proof {
        assert(spec_is_first_match_at(retrieved@, commit, k as int));
    }
    let root_block = retrieved[k].clone();
    let root_qc = if k > 0 {
        retrieved[k - 1].quorum_cert.clone()
    } else {
        commit_qc.clone()
    };
    // The suffix above the new root, parent first.
    let mut suffix: Vec<Block> = Vec::new();
    let mut j = k;
    while j > 0
        invariant
            j <= k < retrieved@.len(),
            suffix@.len() == k - j,
            forall|m: int|
                0 <= m < suffix@.len() ==> block_eq(
                    #[trigger] suffix@[m],
                    retrieved@[k - 1 - m],
                ),
        decreases j,
    {
        j -= 1;
        suffix.push(retrieved[j].clone());
    }
    Ok(RecoveryData { epoch: commit.epoch, root_block, root_qc, suffix })
}

/// Each fetched block's certificate carries the identifying data of the
/// next (its parent).
pub open spec fn spec_chain_links(bs: Seq<Block>) -> bool {
    forall|i: int|
        0 <= i < bs.len() - 1 ==> (#[trigger] bs[i]).quorum_cert.certified() == bs[i
            + 1].spec_info()
}

/// Position `k` holds the first block with the committed id, and its data
/// matches the committed block exactly.
pub open spec fn spec_is_first_match_at(bs: Seq<Block>, c: BlockInfo, k: int) -> bool {
    &&& 0 <= k < bs.len()
    &&& bs[k].id == c.id
    &&& bs[k].spec_info() == c
    &&& forall|j: int| 0 <= j < k ==> (#[trigger] bs[j]).id != c.id
}

/// The chain reaches the committed block.
pub open spec fn spec_first_match(bs: Seq<Block>, c: BlockInfo) -> bool {
    exists|k: int| spec_is_first_match_at(bs, c, k)
}

} // verus!
