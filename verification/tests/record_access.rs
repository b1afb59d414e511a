use tx_query::query::SimpleTransactionData;
use tx_query::query::TransactionQueryData;
use tx_query::store::MemStore;
use tx_query::types::Entity;
use tx_query::types::Receipt;
use tx_query::types::StorageError;
use tx_query::types::Transaction;
use tx_query::types::TransactionStatus;
use tx_query::types::TxId;

fn txid(value: u64) -> TxId {
    TxId { value }
}

fn record(bytes: &[u8]) -> Transaction {
    Transaction { bytes: bytes.to_vec() }
}

fn receipt(bytes: &[u8]) -> Receipt {
    Receipt { bytes: bytes.to_vec() }
}

#[test]
fn transaction_present_returns_exact_record() {
    let mut store = MemStore::new();
    store.insert_transaction(txid(1), record(&[10, 20, 30]));
    store.insert_transaction(txid(2), record(&[99]));
    assert_eq!(store.transaction(&txid(1)), Ok(record(&[10, 20, 30])));
    assert_eq!(store.transaction(&txid(2)), Ok(record(&[99])));
}

#[test]
fn transaction_absent_fails_not_found() {
    let mut store = MemStore::new();
    store.insert_transaction(txid(1), record(&[10]));
    assert_eq!(
        store.transaction(&txid(7)),
        Err(StorageError::NotFound(Entity::Transactions))
    );
}

#[test]
fn transaction_insert_shadows_earlier_record() {
    let mut store = MemStore::new();
    store.insert_transaction(txid(1), record(&[1]));
    store.insert_transaction(txid(1), record(&[2]));
    assert_eq!(store.transaction(&txid(1)), Ok(record(&[2])));
}

#[test]
fn receipts_present_returns_stored_order() {
    let mut store = MemStore::new();
    store.insert_receipts(txid(4), vec![receipt(&[1]), receipt(&[2]), receipt(&[3])]);
    assert_eq!(
        store.receipts(&txid(4)),
        Ok(vec![receipt(&[1]), receipt(&[2]), receipt(&[3])])
    );
}

#[test]
fn receipts_zero_receipts_is_a_present_empty_entry() {
    let mut store = MemStore::new();
    store.insert_receipts(txid(4), vec![]);
    assert_eq!(store.receipts(&txid(4)), Ok(vec![]));
}

#[test]
fn receipts_absent_entry_fails_with_transaction_not_found() {
    let mut store = MemStore::new();
    store.insert_receipts(txid(4), vec![receipt(&[1])]);
    assert_eq!(
        store.receipts(&txid(5)),
        Err(StorageError::NotFound(Entity::Transactions))
    );
}

#[test]
fn status_present_is_delegated_from_the_backend() {
    let mut store = MemStore::new();
    let submitted = TransactionStatus::Submitted { time: 7 };
    let success = TransactionStatus::Success { block_height: 3, time: 9 };
    store.insert_status(txid(1), submitted);
    store.insert_status(txid(2), success);
    assert_eq!(store.status(&txid(1)), Ok(submitted));
    assert_eq!(store.status(&txid(2)), Ok(success));
}

#[test]
fn status_absent_surfaces_the_backend_error() {
    let mut store = MemStore::new();
    store.insert_status(txid(1), TransactionStatus::Failed { block_height: 2, time: 5 });
    assert_eq!(
        store.status(&txid(9)),
        Err(StorageError::NotFound(Entity::TransactionStatuses))
    );
}

#[test]
fn tables_are_independent() {
    let mut store = MemStore::new();
    store.insert_transaction(txid(1), record(&[1]));
    assert_eq!(
        store.receipts(&txid(1)),
        Err(StorageError::NotFound(Entity::Transactions))
    );
    assert_eq!(
        store.status(&txid(1)),
        Err(StorageError::NotFound(Entity::TransactionStatuses))
    );
}
