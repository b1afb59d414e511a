//! A verified in-memory storage backend.
//!
//! `MemStore` keeps the four ledger tables as association lists with
//! first-match lookup, so an insert under an existing key shadows the old
//! entry.  Per owner it keeps the `(pointer, id)` index strictly ascending,
//! which makes it a conforming [`DatabasePort`]; the owner index and the
//! transaction table are deliberately independent, so a store can hold an
//! index entry whose record is gone — exactly the out-of-band deletion the
//! query layer must surface as an in-place error.

use vstd::prelude::*;

use crate::order::beyond;
use crate::order::first_beyond;
use crate::order::lemma_suffix_beyond_characterized;
use crate::order::oriented;
use crate::order::remaining_of;
use crate::order::strictly_ascending;
use crate::ports::DatabasePort;
use crate::types::Address;
use crate::types::Entity;
use crate::types::IterDirection;
use crate::types::Receipt;
use crate::types::StorageError;
use crate::types::StorageResult;
use crate::types::Transaction;
use crate::types::TransactionStatus;
use crate::types::TxId;
use crate::types::TxPointer;

verus! {

/// First-match lookup in an association list.
spec fn assoc_find<K, V>(s: Seq<(K, V)>, key: K) -> Option<V>
    decreases s.len(),
{
    if s.len() == 0 {
        None
    } else if s[0].0 == key {
        Some(s[0].1)
    } else {
        assoc_find(s.skip(1), key)
    }
}

/// A found value is an element of the list under its key.
proof fn lemma_assoc_find_member<K, V>(s: Seq<(K, V)>, key: K)
    ensures
        assoc_find(s, key) matches Some(v) ==> exists|k: int|
            0 <= k < s.len() && s[k] == (key, v),
    decreases s.len(),
{
    if s.len() > 0 && !(s[0].0 == key) {
        lemma_assoc_find_member(s.skip(1), key);
        if let Some(v) = assoc_find(s, key) {
            let k = choose|k: int| 0 <= k < s.skip(1).len() && s.skip(1)[k] == (key, v);
            assert(s[k + 1] == (key, v));
        }
    }
}

/// An in-memory ledger store.  Grows by shadowing inserts, never shrinks;
/// reads are single-shot and deterministic.
pub struct MemStore {
    txs: Vec<(TxId, Transaction)>,
    receipt_entries: Vec<(TxId, Vec<Receipt>)>,
    statuses: Vec<(TxId, TransactionStatus)>,
    owned: Vec<(Address, Vec<(TxPointer, TxId)>)>,
}

/// A verified byte-for-byte copy of a buffer.
fn copy_bytes(v: &Vec<u8>) -> (r: Vec<u8>)
    ensures
        r@ == v@,
{
    let mut r: Vec<u8> = Vec::new();
    let mut i: usize = 0;
    while i < v.len()
        invariant
            i <= v.len(),
            r@ == v@.take(i as int),
        decreases v.len() - i,
    {
        r.push(v[i]);
        proof {
            assert(v@.take(i + 1) =~= v@.take(i as int).push(v@[i as int]));
        }
        i = i + 1;
    }
    proof {
        assert(v@.take(v.len() as int) =~= v@);
    }
    r
}

/// A verified copy of a receipts entry, receipt for receipt.
fn copy_receipts(v: &Vec<Receipt>) -> (r: Vec<Receipt>)
    ensures
        r@.map_values(|x: Receipt| x@) == v@.map_values(|x: Receipt| x@),
{
    let mut r: Vec<Receipt> = Vec::new();
    let mut i: usize = 0;
    while i < v.len()
        invariant
            i <= v.len(),
            r@.len() == i,
            forall|j: int| 0 <= j < i ==> r@[j]@ == v@[j]@,
        decreases v.len() - i,
    {
        let bytes = copy_bytes(&v[i].bytes);
        r.push(Receipt { bytes });
        i = i + 1;
    }
    proof {
        assert(r@.map_values(|x: Receipt| x@) =~= v@.map_values(|x: Receipt| x@));
    }
    r
}

/// A verified copy of an owner index entry.
fn copy_pairs(v: &Vec<(TxPointer, TxId)>) -> (r: Vec<(TxPointer, TxId)>)
    ensures
        r@ == v@,
{
    let mut r: Vec<(TxPointer, TxId)> = Vec::new();
    let mut i: usize = 0;
    while i < v.len()
        invariant
            i <= v.len(),
            r@ == v@.take(i as int),
        decreases v.len() - i,
    {
        r.push(v[i]);
        proof {
            assert(v@.take(i + 1) =~= v@.take(i as int).push(v@[i as int]));
        }
        i = i + 1;
    }
    proof {
        assert(v@.take(v.len() as int) =~= v@);
    }
    r
}

/// Decides whether `p` lies beyond the cursor in the given direction.
fn beyond_exec(cursor: Option<TxPointer>, p: TxPointer, direction: IterDirection) -> (b: bool)
    ensures
        b == beyond(cursor, p, direction),
{
    match cursor {
        None => true,
        Some(c) => match direction {
            IterDirection::Ascending => c.lt(&p),
            IterDirection::Descending => p.lt(&c),
        },
    }
}

impl MemStore {
    /// Every per-owner index entry is strictly ascending in pointer.
    #[verifier::type_invariant]
    spec fn wf(&self) -> bool {
        forall|k: int|
            0 <= k < self.owned@.len() ==> strictly_ascending(#[trigger] self.owned@[k].1@)
    }

    /// An empty store: every lookup misses and every owner index is empty.
    pub fn new() -> (r: MemStore)
        ensures
            forall|id: TxId| r.spec_transaction(id) is None,
            forall|id: TxId| r.spec_receipts(id) is None,
            forall|id: TxId| r.spec_status(id) is None,
            forall|o: Address| r.owned_index(o) == Seq::<(TxPointer, TxId)>::empty(),
    {
        MemStore {
            txs: Vec::new(),
            receipt_entries: Vec::new(),
            statuses: Vec::new(),
            owned: Vec::new(),
        }
    }

    /// Stores a transaction record under its id, shadowing any earlier
    /// record with the same id.  No other table changes.
    pub fn insert_transaction(&mut self, id: TxId, tx: Transaction)
        ensures
            final(self).spec_transaction(id) == Some(tx@),
            forall|x: TxId|
                x != id ==> final(self).spec_transaction(x) == old(self).spec_transaction(x),
            forall|x: TxId| final(self).spec_receipts(x) == old(self).spec_receipts(x),
            forall|x: TxId| final(self).spec_status(x) == old(self).spec_status(x),
            forall|o: Address| final(self).owned_index(o) == old(self).owned_index(o),
    {
        proof {
            use_type_invariant(&*self);
        }
        let mut txs: Vec<(TxId, Transaction)> = Vec::new();
        core::mem::swap(&mut txs, &mut self.txs);
        txs.insert(0, (id, tx));
        self.txs = txs;
        proof {
            assert(self.txs@.skip(1) =~= old(self).txs@);
        }
    }

    /// Stores the receipts entry of a transaction, shadowing any earlier
    /// entry with the same id.  An empty vector is a present entry, not
    /// absence.  No other table changes.
    pub fn insert_receipts(&mut self, id: TxId, receipts: Vec<Receipt>)
        ensures
            final(self).spec_receipts(id) == Some(receipts@.map_values(|x: Receipt| x@)),
            forall|x: TxId|
                x != id ==> final(self).spec_receipts(x) == old(self).spec_receipts(x),
            forall|x: TxId| final(self).spec_transaction(x) == old(self).spec_transaction(x),
            forall|x: TxId| final(self).spec_status(x) == old(self).spec_status(x),
            forall|o: Address| final(self).owned_index(o) == old(self).owned_index(o),
    {
        proof {
            use_type_invariant(&*self);
        }
        let mut entries: Vec<(TxId, Vec<Receipt>)> = Vec::new();
        core::mem::swap(&mut entries, &mut self.receipt_entries);
        entries.insert(0, (id, receipts));
        self.receipt_entries = entries;
        proof {
            assert(self.receipt_entries@.skip(1) =~= old(self).receipt_entries@);
        }
    }

    /// Stores the status of a transaction, shadowing any earlier status with
    /// the same id.  No other table changes.
    pub fn insert_status(&mut self, id: TxId, status: TransactionStatus)
        ensures
            final(self).spec_status(id) == Some(status),
            forall|x: TxId| x != id ==> final(self).spec_status(x) == old(self).spec_status(x),
            forall|x: TxId| final(self).spec_transaction(x) == old(self).spec_transaction(x),
            forall|x: TxId| final(self).spec_receipts(x) == old(self).spec_receipts(x),
            forall|o: Address| final(self).owned_index(o) == old(self).owned_index(o),
    {
        proof {
            use_type_invariant(&*self);
        }
        let mut statuses: Vec<(TxId, TransactionStatus)> = Vec::new();
        core::mem::swap(&mut statuses, &mut self.statuses);
        statuses.insert(0, (id, status));
        self.statuses = statuses;
        proof {
            assert(self.statuses@.skip(1) =~= old(self).statuses@);
        }
    }

    /// Appends a `(pointer, id)` pair to an owner's index.  Entries arrive in
    /// ledger order, so the new pointer must lie strictly above the owner's
    /// last one; the index stays strictly ascending.  The pair need not have
    /// a record in the transaction table: the tables are independent, as they
    /// are in a real backend.  No other owner and no other table changes.
    pub fn insert_owned(&mut self, owner: Address, pointer: TxPointer, id: TxId)
        requires
            old(self).owned_index(owner).len() == 0 || old(self).owned_index(
                owner,
            ).last().0.spec_lt(pointer),
        ensures
            final(self).owned_index(owner) == old(self).owned_index(owner).push((pointer, id)),
            forall|o: Address| o != owner ==> final(self).owned_index(o) == old(self).owned_index(o),
            forall|x: TxId| final(self).spec_transaction(x) == old(self).spec_transaction(x),
            forall|x: TxId| final(self).spec_receipts(x) == old(self).spec_receipts(x),
            forall|x: TxId| final(self).spec_status(x) == old(self).spec_status(x),
    {
        proof {
            use_type_invariant(&*self);
        }
        let current = self.find_owned(&owner);
        let mut entry: Vec<(TxPointer, TxId)> = match current {
            Some(w) => copy_pairs(w),
            None => Vec::new(),
        };
        entry.push((pointer, id));
        proof {
            let older = old(self).owned_index(owner);
            lemma_assoc_find_member(self.owned@, owner);
            if let Some(v) = assoc_find(self.owned@, owner) {
                let k = choose|k: int|
                    0 <= k < self.owned@.len() && self.owned@[k] == (owner, v);
                assert(strictly_ascending(self.owned@[k].1@));
            }
            assert(entry@ == older.push((pointer, id)));
            assert(strictly_ascending(older));
            assert forall|i: int, j: int| 0 <= i < j < entry@.len() implies entry@[i].0.spec_lt(
                entry@[j].0,
            ) by {
                if j < older.len() {
                    assert(older[i].0.spec_lt(older[j].0));
                } else {
                    if i < older.len() - 1 {
                        assert(older[i].0.spec_lt(older.last().0));
                    }
                }
            }
        }
        let mut owned_list: Vec<(Address, Vec<(TxPointer, TxId)>)> = Vec::new();
        core::mem::swap(&mut owned_list, &mut self.owned);
        owned_list.insert(0, (owner, entry));
        proof {
            assert(owned_list@.skip(1) =~= old(self).owned@);
            assert forall|k: int| 0 <= k < owned_list@.len() implies strictly_ascending(
                #[trigger] owned_list@[k].1@,
            ) by {
                if k > 0 {
                    assert(owned_list@[k] == owned_list@.skip(1)[k - 1]);
                }
            }
        }
        self.owned = owned_list;
    }

    /// First-match scan of the owner list.
    fn find_owned(&self, owner: &Address) -> (r: Option<&Vec<(TxPointer, TxId)>>)
        ensures
            match r {
                Some(v) => assoc_find(self.owned@, *owner) == Some(*v),
                None => assoc_find(self.owned@, *owner) is None,
            },
    {
        proof {
            assert(self.owned@.skip(0) =~= self.owned@);
        }
        let mut i: usize = 0;
        while i < self.owned.len()
            invariant
                i <= self.owned@.len(),
                assoc_find(self.owned@, *owner) == assoc_find(self.owned@.skip(i as int), *owner),
            decreases self.owned@.len() - i,
        {
            let entry = &self.owned[i];
            if entry.0 == *owner {
                proof {
                    assert(self.owned@.skip(i as int)[0] == self.owned@[i as int]);
                }
                return Some(&entry.1);
            }
            proof {
                assert(self.owned@.skip(i as int).skip(1) =~= self.owned@.skip(i + 1));
            }
            i = i + 1;
        }
        None
    }
}

impl DatabasePort for MemStore {
    closed spec fn spec_transaction(&self, id: TxId) -> Option<Seq<u8>> {
        match assoc_find(self.txs@, id) {
            Some(t) => Some(t@),
            None => None,
        }
    }

    closed spec fn spec_receipts(&self, id: TxId) -> Option<Seq<Seq<u8>>> {
        match assoc_find(self.receipt_entries@, id) {
            Some(v) => Some(v@.map_values(|x: Receipt| x@)),
            None => None,
        }
    }

    closed spec fn spec_status(&self, id: TxId) -> Option<TransactionStatus> {
        assoc_find(self.statuses@, id)
    }

    // The index is ascending by construction: a stored entry that were not
    // ascending would read as empty.  The type invariant rules such an entry
    // out of every store a caller can hold, so the fallback is never taken.
    closed spec fn owned_index(&self, owner: Address) -> Seq<(TxPointer, TxId)> {
        match assoc_find(self.owned@, owner) {
            Some(v) => if strictly_ascending(v@) {
                v@
            } else {
                Seq::empty()
            },
            None => Seq::empty(),
        }
    }

    proof fn owned_index_ordered(&self, owner: Address) {
    }

    fn get_transaction(&self, id: &TxId) -> (r: Option<Transaction>) {
        proof {
            assert(self.txs@.skip(0) =~= self.txs@);
        }
        let mut i: usize = 0;
        while i < self.txs.len()
            invariant
                i <= self.txs@.len(),
                assoc_find(self.txs@, *id) == assoc_find(self.txs@.skip(i as int), *id),
            decreases self.txs@.len() - i,
        {
            let entry = &self.txs[i];
            if entry.0 == *id {
                proof {
                    assert(self.txs@.skip(i as int)[0] == self.txs@[i as int]);
                }
                let bytes = copy_bytes(&entry.1.bytes);
                return Some(Transaction { bytes });
            }
            proof {
                assert(self.txs@.skip(i as int).skip(1) =~= self.txs@.skip(i + 1));
            }
            i = i + 1;
        }
        None
    }

    fn get_receipts(&self, id: &TxId) -> (r: Option<Vec<Receipt>>) {
        proof {
            assert(self.receipt_entries@.skip(0) =~= self.receipt_entries@);
        }
        let mut i: usize = 0;
        while i < self.receipt_entries.len()
            invariant
                i <= self.receipt_entries@.len(),
                assoc_find(self.receipt_entries@, *id) == assoc_find(
                    self.receipt_entries@.skip(i as int),
                    *id,
                ),
            decreases self.receipt_entries@.len() - i,
        {
            let entry = &self.receipt_entries[i];
            if entry.0 == *id {
                proof {
                    assert(self.receipt_entries@.skip(i as int)[0]
                        == self.receipt_entries@[i as int]);
                }
                return Some(copy_receipts(&entry.1));
            }
            proof {
                assert(self.receipt_entries@.skip(i as int).skip(1) =~= self.receipt_entries@.skip(
                    i + 1,
                ));
            }
            i = i + 1;
        }
        None
    }

    fn tx_status(&self, id: &TxId) -> (r: StorageResult<TransactionStatus>)
        ensures
            r matches Err(e) ==> e == StorageError::NotFound(Entity::TransactionStatuses),
    {
        proof {
            assert(self.statuses@.skip(0) =~= self.statuses@);
        }
        let mut i: usize = 0;
        while i < self.statuses.len()
            invariant
                i <= self.statuses@.len(),
                assoc_find(self.statuses@, *id) == assoc_find(self.statuses@.skip(i as int), *id),
            decreases self.statuses@.len() - i,
        {
            let entry = &self.statuses[i];
            if entry.0 == *id {
                proof {
                    assert(self.statuses@.skip(i as int)[0] == self.statuses@[i as int]);
                }
                return Ok(entry.1);
            }
            proof {
                assert(self.statuses@.skip(i as int).skip(1) =~= self.statuses@.skip(i + 1));
            }
            i = i + 1;
        }
        Err(StorageError::NotFound(Entity::TransactionStatuses))
    }

    fn next_owned_id(&self, owner: &Address, cursor: Option<TxPointer>, direction: IterDirection)
        -> (r: StorageResult<Option<(TxPointer, TxId)>>)
        ensures
            r is Ok,
    {
        proof {
            use_type_invariant(&*self);
            lemma_assoc_find_member(self.owned@, *owner);
            if let Some(v) = assoc_find(self.owned@, *owner) {
                let k = choose|k: int|
                    0 <= k < self.owned@.len() && self.owned@[k] == (*owner, v);
                assert(strictly_ascending(self.owned@[k].1@));
            }
        }
        let entry = match self.find_owned(owner) {
            Some(v) => v,
            None => {
                proof {
                    assert(remaining_of(self.owned_index(*owner), cursor, direction)
                        =~= Seq::<(TxPointer, TxId)>::empty());
                }
                return Ok(None);
            },
        };
        let n = entry.len();
        let ghost s = oriented(entry@, direction);
        let mut k: usize = 0;
        while k < n
            invariant
                k <= n,
                n == entry@.len(),
                s == oriented(entry@, direction),
                s.len() == n,
                self.owned_index(*owner) == entry@,
                forall|j: int| 0 <= j < k ==> !beyond(cursor, s[j].0, direction),
            decreases n - k,
        {
            let e: (TxPointer, TxId) = match direction {
                IterDirection::Ascending => entry[k],
                IterDirection::Descending => entry[n - 1 - k],
            };
            proof {
                assert(e == s[k as int]);
            }
            if beyond_exec(cursor, e.0, direction) {
                proof {
                    lemma_suffix_beyond_characterized(s, cursor, direction);
                    let fb = first_beyond(s, cursor, direction);
                    if fb < k {
                        assert(beyond(cursor, s[fb].0, direction));
                        assert(false);
                    }
                    if fb > k {
                        assert(!beyond(cursor, s[k as int].0, direction));
                        assert(false);
                    }
                }
                return Ok(Some(e));
            }
            k = k + 1;
        }
        proof {
            lemma_suffix_beyond_characterized(s, cursor, direction);
            let fb = first_beyond(s, cursor, direction);
            if fb < s.len() {
                assert(beyond(cursor, s[fb].0, direction));
                assert(false);
            }
            assert(remaining_of(self.owned_index(*owner), cursor, direction) =~= s.skip(fb));
        }
        Ok(None)
    }
}

} // verus!
