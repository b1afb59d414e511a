use tx_query::query::TransactionQueryData;
use tx_query::store::MemStore;
use tx_query::types::Address;
use tx_query::types::Entity;
use tx_query::types::IterDirection;
use tx_query::types::StorageError;
use tx_query::types::StorageResult;
use tx_query::types::Transaction;
use tx_query::types::TxId;
use tx_query::types::TxPointer;

fn txid(value: u64) -> TxId {
    TxId { value }
}

fn addr(value: u64) -> Address {
    Address { value }
}

fn ptr(block_height: u32, tx_index: u16) -> TxPointer {
    TxPointer { block_height, tx_index }
}

fn record(bytes: &[u8]) -> Transaction {
    Transaction { bytes: bytes.to_vec() }
}

/// An owner with three hydratable transactions at ascending pointers.
fn three_record_store() -> (MemStore, Address, [TxPointer; 3]) {
    let mut store = MemStore::new();
    let owner = addr(1);
    let pointers = [ptr(1, 0), ptr(1, 3), ptr(2, 0)];
    store.insert_transaction(txid(10), record(&[10]));
    store.insert_transaction(txid(11), record(&[11]));
    store.insert_transaction(txid(12), record(&[12]));
    store.insert_owned(owner, pointers[0], txid(10));
    store.insert_owned(owner, pointers[1], txid(11));
    store.insert_owned(owner, pointers[2], txid(12));
    (store, owner, pointers)
}

fn drain(
    store: &MemStore,
    owner: Address,
    start: Option<TxPointer>,
    direction: IterDirection,
) -> Vec<StorageResult<(TxPointer, Transaction)>> {
    let mut walk = store.owned_transactions(owner, start, direction);
    let mut out = Vec::new();
    while let Some(item) = walk.next() {
        out.push(item);
    }
    out
}

#[test]
fn ascending_yields_every_owned_transaction_in_pointer_order() {
    let (store, owner, pointers) = three_record_store();
    let items = drain(&store, owner, None, IterDirection::Ascending);
    assert_eq!(
        items,
        vec![
            Ok((pointers[0], record(&[10]))),
            Ok((pointers[1], record(&[11]))),
            Ok((pointers[2], record(&[12]))),
        ]
    );
}

#[test]
fn descending_is_the_exact_reverse_of_ascending() {
    let (store, owner, _) = three_record_store();
    let mut ascending = drain(&store, owner, None, IterDirection::Ascending);
    let descending = drain(&store, owner, None, IterDirection::Descending);
    ascending.reverse();
    assert_eq!(descending, ascending);
}

#[test]
fn start_cursor_is_exclusive() {
    let (store, owner, pointers) = three_record_store();
    let items = drain(&store, owner, Some(pointers[0]), IterDirection::Ascending);
    assert_eq!(
        items,
        vec![
            Ok((pointers[1], record(&[11]))),
            Ok((pointers[2], record(&[12]))),
        ]
    );
}

#[test]
fn resuming_matches_uninterrupted_consumption() {
    let (store, owner, _) = three_record_store();
    for direction in [IterDirection::Ascending, IterDirection::Descending] {
        let full = drain(&store, owner, None, direction);
        let mut walk = store.owned_transactions(owner, None, direction);
        let first = walk.next().expect("three items ahead").expect("hydratable");
        let resumed = drain(&store, owner, Some(first.0), direction);
        assert_eq!(&resumed[..], &full[1..]);
    }
}

#[test]
fn start_cursor_between_pointers_resumes_at_the_next_one() {
    let (store, owner, pointers) = three_record_store();
    let items = drain(&store, owner, Some(ptr(1, 1)), IterDirection::Ascending);
    assert_eq!(
        items,
        vec![
            Ok((pointers[1], record(&[11]))),
            Ok((pointers[2], record(&[12]))),
        ]
    );
}

#[test]
fn start_cursor_beyond_all_yields_nothing() {
    let (store, owner, _) = three_record_store();
    assert_eq!(
        drain(&store, owner, Some(ptr(9, 0)), IterDirection::Ascending),
        vec![]
    );
    assert_eq!(
        drain(&store, owner, Some(ptr(0, 0)), IterDirection::Descending),
        vec![]
    );
}

#[test]
fn missing_record_fails_in_place_and_later_positions_are_unaffected() {
    let mut store = MemStore::new();
    let owner = addr(1);
    store.insert_transaction(txid(10), record(&[10]));
    store.insert_transaction(txid(12), record(&[12]));
    store.insert_owned(owner, ptr(1, 0), txid(10));
    store.insert_owned(owner, ptr(1, 3), txid(11));
    store.insert_owned(owner, ptr(2, 0), txid(12));
    let items = drain(&store, owner, None, IterDirection::Ascending);
    assert_eq!(
        items,
        vec![
            Ok((ptr(1, 0), record(&[10]))),
            Err(StorageError::NotFound(Entity::Transactions)),
            Ok((ptr(2, 0), record(&[12]))),
        ]
    );
}

#[test]
fn owner_without_transactions_yields_nothing() {
    let (store, _, _) = three_record_store();
    assert_eq!(drain(&store, addr(9), None, IterDirection::Ascending), vec![]);
    assert_eq!(drain(&store, addr(9), None, IterDirection::Descending), vec![]);
}

#[test]
fn owners_are_enumerated_independently() {
    let mut store = MemStore::new();
    store.insert_transaction(txid(10), record(&[10]));
    store.insert_transaction(txid(20), record(&[20]));
    store.insert_owned(addr(1), ptr(1, 0), txid(10));
    store.insert_owned(addr(2), ptr(1, 0), txid(20));
    assert_eq!(
        drain(&store, addr(1), None, IterDirection::Ascending),
        vec![Ok((ptr(1, 0), record(&[10])))]
    );
    assert_eq!(
        drain(&store, addr(2), None, IterDirection::Ascending),
        vec![Ok((ptr(1, 0), record(&[20])))]
    );
}

#[test]
fn pointer_order_is_block_height_then_intra_block_index() {
    assert!(ptr(1, 9).lt(&ptr(2, 0)));
    assert!(ptr(1, 0).lt(&ptr(1, 1)));
    assert!(!ptr(1, 1).lt(&ptr(1, 1)));
    assert!(!ptr(2, 0).lt(&ptr(1, 9)));
}

#[test]
fn exhausted_enumeration_stays_exhausted() {
    let (store, owner, _) = three_record_store();
    let mut walk = store.owned_transactions(owner, None, IterDirection::Descending);
    for _ in 0..3 {
        assert!(walk.next().is_some());
    }
    assert!(walk.next().is_none());
    assert!(walk.next().is_none());
}
