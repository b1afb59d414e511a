//! The storage port: what this layer requires of a backend.
//!
//! A backend owns the ledger tables; this layer sees them only through the
//! four primitive reads below.  Each backend carries a ghost model of its
//! tables — three partial maps keyed by transaction id, and one per-owner
//! index of `(TxPointer, TxId)` pairs — and its reads are specified against
//! that model.  The model is read-only here: no method of this layer mutates
//! a backend.

use vstd::prelude::*;

use crate::order::remaining_of;
use crate::order::strictly_ascending;
use crate::types::Address;
use crate::types::IterDirection;
use crate::types::Receipt;
use crate::types::StorageResult;
use crate::types::Transaction;
use crate::types::TransactionStatus;
use crate::types::TxId;
use crate::types::TxPointer;

verus! {

/// The capability a storage backend provides.  Implement the four spec
/// functions as the ghost view of the backing tables, prove that every
/// owner's index is strictly ascending in pointer, and give the four reads
/// the stated meaning; the query capabilities of this layer then come for
/// free.
pub trait DatabasePort {
    /// The transaction table: the record stored under an id, if any.
    spec fn spec_transaction(&self, id: TxId) -> Option<Seq<u8>>;

    /// The receipts table: the ordered receipts stored under an id, if any.
    /// A transaction with zero receipts has a present, empty entry; absence
    /// of the entry means the transaction is unknown to the store.
    spec fn spec_receipts(&self, id: TxId) -> Option<Seq<Seq<u8>>>;

    /// The status table: the status stored under an id, if any.
    spec fn spec_status(&self, id: TxId) -> Option<TransactionStatus>;

    /// The owner index: the `(pointer, id)` pairs of the owner's
    /// transactions, ascending in pointer.
    spec fn owned_index(&self, owner: Address) -> Seq<(TxPointer, TxId)>;

    /// Every conforming backend keeps each owner's index strictly ascending
    /// in pointer; pointers under one owner are unique.
    proof fn owned_index_ordered(&self, owner: Address)
        ensures
            strictly_ascending(self.owned_index(owner)),
    ;

    /// Single-shot keyed read of the transaction table.
    fn get_transaction(&self, id: &TxId) -> (r: Option<Transaction>)
        ensures
            match r {
                Some(t) => self.spec_transaction(*id) == Some(t@),
                None => self.spec_transaction(*id) is None,
            },
    ;

    /// Single-shot keyed read of the receipts table.
    fn get_receipts(&self, id: &TxId) -> (r: Option<Vec<Receipt>>)
        ensures
            match r {
                Some(rs) => self.spec_receipts(*id) == Some(rs@.map_values(|x: Receipt| x@)),
                None => self.spec_receipts(*id) is None,
            },
    ;

    /// Single-shot keyed read of the status table.  On an unknown id the
    /// backend surfaces an error of its choosing, which this layer hands on
    /// untranslated.
    fn tx_status(&self, id: &TxId) -> (r: StorageResult<TransactionStatus>)
        ensures
            match r {
                Ok(s) => self.spec_status(*id) == Some(s),
                Err(_) => self.spec_status(*id) is None,
            },
    ;

    /// One pull of the owner enumeration: the next `(pointer, id)` pair of
    /// `owner`'s index strictly beyond `cursor` in `direction`, or `None`
    /// when the enumeration is exhausted.  A backend may fail a pull; an
    /// error says nothing about the index.
    fn next_owned_id(&self, owner: &Address, cursor: Option<TxPointer>, direction: IterDirection)
        -> (r: StorageResult<Option<(TxPointer, TxId)>>)
        ensures
            match r {
                Ok(step) => {
                    let rem = remaining_of(self.owned_index(*owner), cursor, direction);
                    match step {
                        Some(e) => rem.len() > 0 && e == rem[0],
                        None => rem.len() == 0,
                    }
                },
                Err(_) => true,
            },
    ;
}

} // verus!
