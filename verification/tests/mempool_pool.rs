//! Mempool scenarios: fee ordering, per-account chaining, replacement,
//! expiry and the replication timeline.

use bft_core::mempool::{Mempool, MempoolStatus, TimelineState, TxnPointer};
use bft_core::types::SignedTransaction;

fn txn(sender: u64, seq: u64, gas: u64) -> SignedTransaction {
    SignedTransaction {
        sender,
        sequence_number: seq,
        gas_unit_price: gas,
        expiration_time_secs: 1_000,
        payload_id: sender * 1_000 + seq,
    }
}

fn pool() -> Mempool {
    Mempool::new(100, 100, 100)
}

#[test]
fn fee_ordering_respects_account_sequencing() {
    // Account A submits (seq 1, gas 1) and (seq 2, gas 100). Despite the
    // higher fee, seq 2 cannot run first: the block is [(A,1), (A,2)].
    let mut m = pool();
    assert_eq!(
        m.add_txn(txn(7, 1, 1), 1, 1, 1, TimelineState::NotReady, false, 10),
        MempoolStatus::Accepted
    );
    assert_eq!(
        m.add_txn(txn(7, 2, 100), 1, 100, 1, TimelineState::NotReady, false, 10),
        MempoolStatus::Accepted
    );
    let block = m.get_block(10, &Vec::new());
    assert_eq!(block.len(), 2);
    assert_eq!((block[0].sender, block[0].sequence_number), (7, 1));
    assert_eq!((block[1].sender, block[1].sequence_number), (7, 2));
}

#[test]
fn duplicate_sequence_replaced_only_by_higher_fee() {
    let mut m = pool();
    assert_eq!(
        m.add_txn(txn(8, 5, 10), 1, 10, 5, TimelineState::NotReady, false, 10),
        MempoolStatus::Accepted
    );
    // The same (account, seq) with a higher fee replaces the first.
    assert_eq!(
        m.add_txn(txn(8, 5, 20), 1, 20, 5, TimelineState::NotReady, false, 10),
        MempoolStatus::Accepted
    );
    // A lower or equal fee is refused.
    assert_eq!(
        m.add_txn(txn(8, 5, 15), 1, 15, 5, TimelineState::NotReady, false, 10),
        MempoolStatus::InvalidUpdate
    );
    let block = m.get_block(10, &Vec::new());
    assert_eq!(block.len(), 1);
    assert_eq!(block[0].gas_unit_price, 20);
}

#[test]
fn stale_sequence_numbers_are_refused() {
    let mut m = pool();
    // The ledger already knows sequence 5 for this account.
    assert_eq!(
        m.add_txn(txn(9, 3, 10), 1, 10, 5, TimelineState::NotReady, false, 10),
        MempoolStatus::InvalidSeqNumber
    );
    assert_eq!(
        m.add_txn(txn(9, 5, 10), 1, 10, 5, TimelineState::NotReady, false, 10),
        MempoolStatus::Accepted
    );
}

#[test]
fn capacity_eviction_prefers_higher_fees() {
    let mut m = Mempool::new(1, 100, 100);
    assert_eq!(
        m.add_txn(txn(1, 0, 10), 1, 10, 0, TimelineState::NotReady, false, 10),
        MempoolStatus::Accepted
    );
    // A lower-ranked transaction cannot push anything out.
    assert_eq!(
        m.add_txn(txn(2, 0, 5), 1, 5, 0, TimelineState::NotReady, false, 10),
        MempoolStatus::MempoolIsFull
    );
    // A higher-ranked one evicts the lowest-priority entry.
    assert_eq!(
        m.add_txn(txn(3, 0, 20), 1, 20, 0, TimelineState::NotReady, false, 10),
        MempoolStatus::Accepted
    );
    let block = m.get_block(10, &Vec::new());
    assert_eq!(block.len(), 1);
    assert_eq!(block[0].sender, 3);
}

#[test]
fn get_block_respects_batch_size_and_seen_set() {
    let mut m = pool();
    for s in 0..5u64 {
        assert_eq!(
            m.add_txn(txn(4, s, 10), 1, 10, 0, TimelineState::NotReady, false, 10),
            MempoolStatus::Accepted
        );
    }
    let block = m.get_block(3, &Vec::new());
    assert_eq!(block.len(), 3);
    assert_eq!(block[0].sequence_number, 0);
    assert_eq!(block[2].sequence_number, 2);

    // With the first three marked as seen, the rest chains off them.
    let seen = vec![
        TxnPointer { address: 4, sequence_number: 0 },
        TxnPointer { address: 4, sequence_number: 1 },
        TxnPointer { address: 4, sequence_number: 2 },
    ];
    let block = m.get_block(10, &seen);
    assert_eq!(block.len(), 2);
    assert_eq!(block[0].sequence_number, 3);
    assert_eq!(block[1].sequence_number, 4);
}

#[test]
fn pending_transaction_is_served_against_its_predecessor() {
    // The round trip: an admitted transaction that is neither expired nor
    // committed comes back from `get_block` once its predecessor is seen.
    let mut m = pool();
    assert_eq!(
        m.add_txn(txn(6, 41, 9), 1, 9, 0, TimelineState::NotReady, false, 10),
        MempoolStatus::Accepted
    );
    let seen = vec![TxnPointer { address: 6, sequence_number: 40 }];
    let block = m.get_block(10, &seen);
    assert_eq!(block.len(), 1);
    assert_eq!((block[0].sender, block[0].sequence_number), (6, 41));
}

#[test]
fn commit_advances_the_account_and_drops_older_entries() {
    let mut m = pool();
    for s in 0..3u64 {
        m.add_txn(txn(5, s, 10), 1, 10, 0, TimelineState::NotReady, false, 10);
    }
    m.remove_transaction(5, 0, false, 11);
    let block = m.get_block(10, &Vec::new());
    assert_eq!(block.len(), 2);
    assert_eq!(block[0].sequence_number, 1);
}

#[test]
fn rejection_drops_the_transaction_and_its_successors() {
    let mut m = pool();
    for s in 0..3u64 {
        m.add_txn(txn(5, s, 10), 1, 10, 0, TimelineState::NotReady, false, 10);
    }
    m.remove_transaction(5, 1, true, 11);
    // The rejection also dropped the cached account state; admitting the
    // surviving head again refreshes it and shows 1 and 2 are gone.
    assert_eq!(
        m.add_txn(txn(5, 0, 10), 1, 10, 0, TimelineState::NotReady, false, 12),
        MempoolStatus::InvalidUpdate
    );
    let block = m.get_block(10, &Vec::new());
    assert_eq!(block.len(), 1);
    assert_eq!(block[0].sequence_number, 0);
}

#[test]
fn expired_transactions_are_garbage_collected() {
    let mut m = Mempool::new(100, 50, 100);
    m.add_txn(txn(2, 0, 10), 1, 10, 0, TimelineState::NotReady, false, 100);
    // Expiry is admission time plus the pool timeout (100 + 50).
    m.gc(120);
    assert_eq!(m.get_block(10, &Vec::new()).len(), 1);
    m.gc(151);
    assert_eq!(m.get_block(10, &Vec::new()).len(), 0);
}

#[test]
fn client_expiration_uses_block_time() {
    let mut m = pool();
    let mut t = txn(2, 0, 10);
    t.expiration_time_secs = 60;
    m.add_txn(t, 1, 10, 0, TimelineState::NotReady, false, 10);
    m.gc_by_expiration_time(40);
    assert_eq!(m.get_block(10, &Vec::new()).len(), 1);
    m.gc_by_expiration_time(61);
    assert_eq!(m.get_block(10, &Vec::new()).len(), 0);
}

#[test]
fn timeline_hands_out_ready_transactions_in_order() {
    let mut m = pool();
    m.add_txn(txn(3, 0, 10), 1, 10, 0, TimelineState::NotReady, false, 10);
    m.add_txn(txn(3, 1, 11), 1, 11, 0, TimelineState::NotReady, false, 10);
    // A non-qualified transaction never enters the timeline.
    m.add_txn(txn(4, 0, 12), 1, 12, 0, TimelineState::NonQualified, false, 10);

    let (batch, last) = m.read_timeline(0, 10);
    assert_eq!(batch.len(), 2);
    assert_eq!((batch[0].sender, batch[0].sequence_number), (3, 0));
    assert_eq!((batch[1].sender, batch[1].sequence_number), (3, 1));
    assert_eq!(last, 2);

    let (batch, last) = m.read_timeline(1, 10);
    assert_eq!(batch.len(), 1);
    assert_eq!(batch[0].sequence_number, 1);
    assert_eq!(last, 2);

    let range = m.timeline_range(0, 1);
    assert_eq!(range.len(), 1);
    assert_eq!(range[0].sequence_number, 0);
}
