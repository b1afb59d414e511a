//! The query capabilities derived from a storage port.
//!
//! [`SimpleTransactionData`] hydrates primary records, [`TransactionQueryData`]
//! adds status lookup and owner-scoped enumeration.  Any backend implementing
//! [`DatabasePort`] gains both through the blanket implementations below; the
//! derived bodies speak only the port's four primitive reads.

use vstd::prelude::*;

use crate::order::first_beyond;
use crate::order::lemma_oriented_strictly;
use crate::order::lemma_remaining_unstarted;
use crate::order::lemma_resume_at;
use crate::order::lemma_suffix_beyond_characterized;
use crate::order::oriented;
use crate::order::remaining_of;
use crate::order::suffix_beyond;
use crate::ports::DatabasePort;
use crate::types::Address;
use crate::types::Entity;
use crate::types::IterDirection;
use crate::types::Receipt;
use crate::types::StorageError;
use crate::types::StorageResult;
use crate::types::Transaction;
use crate::types::TransactionStatus;
use crate::types::TxId;
use crate::types::TxPointer;

verus! {

/// Primitive-level record access: translate a transaction id into its primary
/// record and its receipts, surfacing absence as a typed error.  The
/// capability must be safe to share across concurrent callers; it performs
/// no mutation itself.
pub trait SimpleTransactionData: Send + Sync {
    /// The transaction table this capability reads.
    spec fn tx_table(&self, id: TxId) -> Option<Seq<u8>>;

    /// The receipts table this capability reads.
    spec fn receipts_table(&self, id: TxId) -> Option<Seq<Seq<u8>>>;

    /// Return all receipts of the given transaction, eagerly and in execution
    /// order.  Absence of the receipts entry means the transaction itself is
    /// unknown to this store — a transaction with zero receipts has a
    /// present, empty entry — so absence fails with the transaction error.
    fn receipts(&self, transaction_id: &TxId) -> (r: StorageResult<Vec<Receipt>>)
        ensures
            match r {
                Ok(rs) => self.receipts_table(*transaction_id) == Some(
                    rs@.map_values(|x: Receipt| x@),
                ),
                Err(e) => self.receipts_table(*transaction_id) is None && e
                    == StorageError::NotFound(Entity::Transactions),
            },
    ;

    /// Get the transaction: the exact stored record when the id is present,
    /// and the not-found error when it is absent.
    fn transaction(&self, transaction_id: &TxId) -> (r: StorageResult<Transaction>)
        ensures
            match r {
                Ok(t) => self.tx_table(*transaction_id) == Some(t@),
                Err(e) => self.tx_table(*transaction_id) is None && e == StorageError::NotFound(
                    Entity::Transactions,
                ),
            },
    ;
}

impl<D: DatabasePort + Send + Sync> SimpleTransactionData for D {
    open spec fn tx_table(&self, id: TxId) -> Option<Seq<u8>> {
        self.spec_transaction(id)
    }

    open spec fn receipts_table(&self, id: TxId) -> Option<Seq<Seq<u8>>> {
        self.spec_receipts(id)
    }

    fn transaction(&self, transaction_id: &TxId) -> (r: StorageResult<Transaction>) {
        match self.get_transaction(transaction_id) {
            Some(t) => Ok(t),
            None => Err(StorageError::NotFound(Entity::Transactions)),
        }
    }

    fn receipts(&self, transaction_id: &TxId) -> (r: StorageResult<Vec<Receipt>>) {
        match self.get_receipts(transaction_id) {
            Some(rs) => Ok(rs),
            None => Err(StorageError::NotFound(Entity::Transactions)),
        }
    }
}

/// A lazy, pull-based enumeration of one owner's transactions, hydrated one
/// element per pull.  It is finite, not restartable, and holds no lock: a
/// fresh call with an explicit start cursor resumes an abandoned walk.
pub struct OwnedTransactionsIter<'a, D: DatabasePort + Send + Sync> {
    /// The backend the walk reads.
    pub db: &'a D,
    /// The owner whose index is walked.
    pub owner: Address,
    /// The pointer of the last element produced, if any; the walk resumes
    /// strictly beyond it (the cursor is exclusive).
    pub cursor: Option<TxPointer>,
    /// The direction of the walk over the pointer order.
    pub direction: IterDirection,
    /// Set once the walk has ended, by exhaustion or by an enumeration
    /// error; no further element is produced.
    pub done: bool,
}

impl<'a, D: DatabasePort + Send + Sync> OwnedTransactionsIter<'a, D> {
    /// The `(pointer, id)` pairs the walk still has to produce.
    pub open spec fn remaining(&self) -> Seq<(TxPointer, TxId)> {
        if self.done {
            Seq::empty()
        } else {
            remaining_of(self.db.owned_index(self.owner), self.cursor, self.direction)
        }
    }

    /// Produces the next element of the enumeration, or `None` when it is
    /// exhausted.  A produced element is the hydration of the first pair
    /// still ahead: the pair's pointer with its full record on success, and
    /// an error in place of a pair whose record is gone — later positions
    /// are unaffected.  An error of the underlying id enumeration itself is
    /// produced in place too and ends the walk.
    pub fn next(&mut self) -> (r: Option<StorageResult<(TxPointer, Transaction)>>)
        ensures
            final(self).db == old(self).db,
            final(self).owner == old(self).owner,
            final(self).direction == old(self).direction,
            ({
                let rem = old(self).remaining();
                match r {
                    None => rem.len() == 0 && final(self).remaining() == rem,
                    Some(item) => match item {
                        Ok(p) => rem.len() > 0 && p.0 == rem[0].0 && old(self).db.spec_transaction(
                            rem[0].1,
                        ) == Some(p.1@) && final(self).remaining() == rem.skip(1),
                        Err(e) => (rem.len() > 0 && old(self).db.spec_transaction(rem[0].1) is None
                            && e == StorageError::NotFound(Entity::Transactions)
                            && final(self).remaining() == rem.skip(1))
                            || final(self).remaining() == Seq::<(TxPointer, TxId)>::empty(),
                    },
                }
            }),
    {
        if self.done {
            return None;
        }
        let step = self.db.next_owned_id(&self.owner, self.cursor, self.direction);
        match step {
            Err(e) => {
                self.done = true;
                Some(Err(e))
            },
            Ok(None) => {
                proof {
                    assert(self.remaining() =~= Seq::<(TxPointer, TxId)>::empty());
                }
                self.done = true;
                None
            },
            Ok(Some((pointer, id))) => {
                proof {
                    let index = self.db.owned_index(self.owner);
                    let s = oriented(index, self.direction);
                    self.db.owned_index_ordered(self.owner);
                    lemma_oriented_strictly(index, self.direction);
                    lemma_suffix_beyond_characterized(s, self.cursor, self.direction);
                    let fb = first_beyond(s, self.cursor, self.direction);
                    let rem = suffix_beyond(s, self.cursor, self.direction);
                    assert(rem == s.skip(fb));
                    assert(rem[0] == s[fb]);
                    lemma_resume_at(s, self.direction, fb);
                    assert(suffix_beyond(s, Some(s[fb].0), self.direction) == s.skip(fb + 1));
                    assert(s.skip(fb + 1) =~= rem.skip(1));
                }
                self.cursor = Some(pointer);
                match self.db.transaction(&id) {
                    Ok(tx) => Some(Ok((pointer, tx))),
                    Err(e) => Some(Err(e)),
                }
            },
        }
    }
}

/// Status lookup and owner-scoped enumeration, built on the primitive record
/// access of [`SimpleTransactionData`].
pub trait TransactionQueryData: SimpleTransactionData + DatabasePort + Sized {
    /// The status of the transaction: a direct delegation to the backend's
    /// status lookup, whose error is handed on untranslated.
    fn status(&self, tx_id: &TxId) -> (r: StorageResult<TransactionStatus>)
        ensures
            match r {
                Ok(s) => self.spec_status(*tx_id) == Some(s),
                Err(_) => self.spec_status(*tx_id) is None,
            },
    ;

    /// The transactions of `owner`, as a lazy enumeration of hydrated
    /// records in `direction` over the pointer order, resumed strictly
    /// beyond `start` when one is given (the start cursor is exclusive).
    fn owned_transactions<'a>(
        &'a self,
        owner: Address,
        start: Option<TxPointer>,
        direction: IterDirection,
    ) -> (r: OwnedTransactionsIter<'a, Self>)
        ensures
            r.db == self,
            r.owner == owner,
            r.direction == direction,
            r.remaining() == remaining_of(self.owned_index(owner), start, direction),
    ;
}

/// The full enumeration of an owner is strictly increasing in pointer when
/// ascending, strictly decreasing when descending, and the descending walk
/// is the exact reverse of the ascending one over the same element set.
pub proof fn lemma_owned_enumeration_order<D: DatabasePort>(db: &D, owner: Address)
    ensures
        ({
            let asc = remaining_of(db.owned_index(owner), None, IterDirection::Ascending);
            let desc = remaining_of(db.owned_index(owner), None, IterDirection::Descending);
            &&& forall|i: int, j: int| 0 <= i < j < asc.len() ==> asc[i].0.spec_lt(asc[j].0)
            &&& forall|i: int, j: int| 0 <= i < j < desc.len() ==> desc[j].0.spec_lt(desc[i].0)
            &&& desc == asc.reverse()
        }),
{
    let index = db.owned_index(owner);
    db.owned_index_ordered(owner);
    lemma_remaining_unstarted(index, IterDirection::Ascending);
    lemma_remaining_unstarted(index, IterDirection::Descending);
    lemma_oriented_strictly(index, IterDirection::Descending);
}

/// Resuming with the pointer of the `k`-th element an uninterrupted walk
/// produces yields exactly the elements the walk would have produced after
/// position `k`: the start cursor is exclusive, and nothing is skipped or
/// repeated across the resumption.
pub proof fn lemma_cursor_resumption<D: DatabasePort>(
    db: &D,
    owner: Address,
    direction: IterDirection,
    k: int,
)
    requires
        0 <= k < remaining_of(db.owned_index(owner), None, direction).len(),
    ensures
        ({
            let full = remaining_of(db.owned_index(owner), None, direction);
            remaining_of(db.owned_index(owner), Some(full[k].0), direction) == full.skip(k + 1)
        }),
{
    let index = db.owned_index(owner);
    let s = oriented(index, direction);
    db.owned_index_ordered(owner);
    lemma_oriented_strictly(index, direction);
    lemma_remaining_unstarted(index, direction);
    lemma_resume_at(s, direction, k);
}

impl<D: DatabasePort + Send + Sync> TransactionQueryData for D {
    fn status(&self, tx_id: &TxId) -> (r: StorageResult<TransactionStatus>) {
        self.tx_status(tx_id)
    }

    fn owned_transactions<'a>(
        &'a self,
        owner: Address,
        start: Option<TxPointer>,
        direction: IterDirection,
    ) -> (r: OwnedTransactionsIter<'a, D>) {
        OwnedTransactionsIter { db: self, owner, cursor: start, direction, done: false }
    }
}

} // verus!
