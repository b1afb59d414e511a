//! The plain data carried by the query layer.
//!
//! Every record here is read-only for this layer: transactions, receipts and
//! statuses are owned by the storage backend, and the layer only moves them
//! from the backend to its callers.

use vstd::prelude::*;

verus! {

/// A fixed-size transaction identifier, the primary key of the ledger's
/// transaction table.
#[derive(Clone, Copy, PartialEq, Eq, Structural, Hash, Debug)]
pub struct TxId {
    pub value: u64,
}

/// A fixed-size owner address, the secondary lookup key of the owner index.
#[derive(Clone, Copy, PartialEq, Eq, Structural, Hash, Debug)]
pub struct Address {
    pub value: u64,
}

/// The position of a transaction within the ledger: block height first, then
/// the index of the transaction inside that block.  Pointers are totally
/// ordered and double as pagination cursors.
#[derive(Clone, Copy, PartialEq, Eq, Structural, Debug)]
pub struct TxPointer {
    pub block_height: u32,
    pub tx_index: u16,
}

impl TxPointer {
    /// The total order on pointers: by block height, ties broken by the
    /// intra-block index.
    pub open spec fn spec_lt(self, other: TxPointer) -> bool {
        ||| self.block_height < other.block_height
        ||| (self.block_height == other.block_height && self.tx_index < other.tx_index)
    }

    /// Decides the pointer order.
    pub fn lt(&self, other: &TxPointer) -> (r: bool)
        ensures
            r == self.spec_lt(*other),
    {
        self.block_height < other.block_height || (self.block_height == other.block_height
            && self.tx_index < other.tx_index)
    }
}

/// An opaque, immutable ledger record.  This layer never inspects the
/// payload; it only hands the record through.
#[derive(PartialEq, Eq, Debug)]
pub struct Transaction {
    pub bytes: Vec<u8>,
}

impl View for Transaction {
    type V = Seq<u8>;

    open spec fn view(&self) -> Seq<u8> {
        self.bytes@
    }
}

/// One record produced by executing a transaction.  Opaque to this layer;
/// only the order of the receipts of a transaction matters here.
#[derive(PartialEq, Eq, Debug)]
pub struct Receipt {
    pub bytes: Vec<u8>,
}

impl View for Receipt {
    type V = Seq<u8>;

    open spec fn view(&self) -> Seq<u8> {
        self.bytes@
    }
}

/// The state a transaction is in, owned and mutated by the backend alone and
/// read-only here.
#[derive(Clone, Copy, PartialEq, Eq, Structural, Debug)]
pub enum TransactionStatus {
    /// Accepted into the pool, not yet part of a block.
    Submitted { time: u64 },
    /// Executed successfully inside the block at the given height.
    Success { block_height: u32, time: u64 },
    /// Executed and rejected inside the block at the given height.
    Failed { block_height: u32, time: u64 },
}

/// The direction in which an owner's transactions are enumerated.
#[derive(Clone, Copy, PartialEq, Eq, Structural, Debug)]
pub enum IterDirection {
    Ascending,
    Descending,
}

/// The entity a failed lookup was after.
#[derive(Clone, Copy, PartialEq, Eq, Structural, Debug)]
pub enum Entity {
    Transactions,
    Receipts,
    TransactionStatuses,
}

/// The one error of this layer: absence is always surfaced as an error,
/// never as a default value standing in for "missing".
#[derive(Clone, Copy, PartialEq, Eq, Structural, Debug)]
pub enum StorageError {
    NotFound(Entity),
}

/// The result of every storage lookup.
pub type StorageResult<T> = Result<T, StorageError>;

} // verus!
