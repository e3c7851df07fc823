//! The pending-transaction pool as this core sees it: the transactions seen
//! on the network but not yet included in a block, each filed under the
//! identifier its decoder recovered. Insertion is authoritative for
//! de-duplication: a transaction whose identifier is already pooled is a
//! no-op, and the handlers relay only what was newly inserted.

use vstd::prelude::*;

verus! {

/// The identifier a transaction is filed under in the memory pool.
#[derive(Clone, Copy, PartialEq, Eq, Hash, Debug, Structural)]
pub struct TransactionId {
    pub id: u64,
}

/// What the consensus engine's transaction decoder recovers from raw bytes,
/// reduced to the fields this core reads: the transaction's identifier and
/// its value balance. A non-negative value balance marks a coinbase-shaped
/// transaction, which must never arrive by peer gossip.
#[derive(Clone, Copy, PartialEq, Eq, Debug, Structural)]
pub struct ParsedTransaction {
    pub id: TransactionId,
    pub value_balance: i64,
}

/// One pooled transaction: the decoded transaction, its serialized bytes,
/// and the byte length recorded at admission.
#[derive(Clone, Debug, PartialEq, Eq)]
pub struct Entry {
    pub size_in_bytes: usize,
    pub transaction: ParsedTransaction,
    pub serialized: Vec<u8>,
}

/// The mathematical shape of a pool entry.
#[verifier::ext_equal]
pub ghost struct EntryV {
    pub size_in_bytes: usize,
    pub transaction: ParsedTransaction,
    pub serialized: Seq<u8>,
}

impl View for Entry {
    type V = EntryV;

    open spec fn view(&self) -> EntryV {
        EntryV {
            size_in_bytes: self.size_in_bytes,
            transaction: self.transaction,
            serialized: self.serialized@,
        }
    }
}

/// The identifier of every pooled entry, in insertion order.
pub open spec fn pool_ids(p: Seq<EntryV>) -> Seq<TransactionId> {
    p.map(|i: int, e: EntryV| e.transaction.id)
}

/// Whether the pool holds an entry under this identifier.
pub open spec fn pool_has(p: Seq<EntryV>, id: TransactionId) -> bool {
    exists|i: int| 0 <= i < p.len() && p[i].transaction.id == id
}

/// The pool after one insertion attempt: unchanged on a duplicate
/// identifier, extended otherwise.
pub open spec fn pool_insert(p: Seq<EntryV>, e: EntryV) -> Seq<EntryV> {
    if pool_has(p, e.transaction.id) {
        p
    } else {
        p.push(e)
    }
}

/// The pending-transaction pool. Its view is the pooled entries in insertion
/// order; well-formed pools hold each identifier at most once.
#[derive(Clone, Debug, PartialEq, Eq)]
pub struct MemoryPool {
    pub entries: Vec<Entry>,
}

impl View for MemoryPool {
    type V = Seq<EntryV>;

    open spec fn view(&self) -> Seq<EntryV> {
        self.entries@.map(|i: int, e: Entry| e@)
    }
}

impl MemoryPool {
    pub open spec fn wf(&self) -> bool {
        pool_ids(self@).no_duplicates()
    }

    /// Creates an empty pool.
    pub fn new() -> (r: MemoryPool)
        ensures
            r.wf(),
            r@ == Seq::<EntryV>::empty(),
    {
        let r = MemoryPool { entries: Vec::new() };
        proof {
            assert(r@ =~= Seq::<EntryV>::empty());
        }
        r
    }

    /// Attempts to admit one entry. Hands back the identifier the entry was
    /// filed under when it was newly inserted, and nothing when an entry
    /// with the same identifier was already pooled.
    pub fn insert(&mut self, entry: Entry) -> (r: Option<TransactionId>)
        requires
            old(self).wf(),
        ensures
            final(self).wf(),
            final(self)@ == pool_insert(old(self)@, entry@),
            r == if pool_has(old(self)@, entry@.transaction.id) {
                None::<TransactionId>
            } else {
                Some(entry@.transaction.id)
            },
    {
        let ghost prev = self@;
        let id = entry.transaction.id;
        let mut i: usize = 0;
        while i < self.entries.len()
            invariant
                i <= self.entries.len(),
                self@ == prev,
                self.wf(),
                id == entry.transaction.id,
                forall|j: int| 0 <= j < i ==> self@[j].transaction.id != id,
            decreases self.entries.len() - i,
        {
            if self.entries[i].transaction.id == id {
                proof {
                    assert(prev[i as int].transaction.id == id);
                    assert(pool_has(prev, id));
                }
                return None;
            }
            i = i + 1;
        }
        let ghost ev = entry@;
        self.entries.push(entry);
        proof {
            assert(self@ =~= prev.push(ev));
            assert(pool_ids(self@) =~= pool_ids(prev).push(id));
            assert forall|a: int, b: int|
                0 <= a < pool_ids(self@).len() && 0 <= b < pool_ids(self@).len() && a
                    != b implies pool_ids(self@)[a] != pool_ids(self@)[b] by {
                if a < prev.len() && b < prev.len() {
                } else if a == prev.len() {
                    assert(prev[b].transaction.id != id);
                } else {
                    assert(prev[a].transaction.id != id);
                }
            }
        }
        Some(id)
    }
}

} // verus!
