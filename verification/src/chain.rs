//! The node's view of chain storage: the canonical chain as an ordered list
//! of blocks, one per height, genesis first. Persistent storage itself is a
//! collaborator outside this crate; the handlers only consume the lookup
//! interface modelled here, so that interface is implemented over an explicit
//! chain value and verified.

use vstd::prelude::*;

use crate::message::BlockHeaderHash;

verus! {

/// One canonical block as storage holds it: its header hash and its raw
/// serialized bytes.
#[derive(Clone, Debug, PartialEq, Eq)]
pub struct StoredBlock {
    pub hash: BlockHeaderHash,
    pub data: Vec<u8>,
}

/// The mathematical shape of a stored block.
#[verifier::ext_equal]
pub ghost struct StoredBlockV {
    pub hash: BlockHeaderHash,
    pub data: Seq<u8>,
}

impl View for StoredBlock {
    type V = StoredBlockV;

    open spec fn view(&self) -> StoredBlockV {
        StoredBlockV { hash: self.hash, data: self.data@ }
    }
}

/// The hash of every block in the chain, by height.
pub open spec fn chain_hashes(c: Seq<StoredBlockV>) -> Seq<BlockHeaderHash> {
    c.map(|i: int, b: StoredBlockV| b.hash)
}

/// Whether a block with the given header hash is in the chain.
pub open spec fn chain_has(c: Seq<StoredBlockV>, h: BlockHeaderHash) -> bool {
    exists|i: int| 0 <= i < c.len() && c[i].hash == h
}

/// The height of the first block carrying the given hash, or -1 when the
/// chain has none.
pub open spec fn height_of(c: Seq<StoredBlockV>, h: BlockHeaderHash) -> int
    decreases c.len(),
{
    if c.len() == 0 {
        -1
    } else if c[0].hash == h {
        0
    } else {
        let rest = height_of(c.skip(1), h);
        if rest < 0 {
            -1
        } else {
            rest + 1
        }
    }
}

/// The stored bytes of the block carrying the given hash.
pub open spec fn chain_data(c: Seq<StoredBlockV>, h: BlockHeaderHash) -> Seq<u8> {
    c[height_of(c, h)].data
}

/// `height_of` resolves exactly the hashes the chain has, to the first
/// height that carries them.
pub proof fn lemma_height_of(c: Seq<StoredBlockV>, h: BlockHeaderHash)
    ensures
        chain_has(c, h) ==> {
            &&& 0 <= height_of(c, h) < c.len()
            &&& c[height_of(c, h)].hash == h
            &&& forall|j: int| 0 <= j < height_of(c, h) ==> c[j].hash != h
        },
        !chain_has(c, h) ==> height_of(c, h) == -1,
    decreases c.len(),
{
    if c.len() == 0 {
    } else if c[0].hash == h {
    } else {
        lemma_height_of(c.skip(1), h);
        if chain_has(c, h) {
            let i = choose|i: int| 0 <= i < c.len() && c[i].hash == h;
            assert(c.skip(1)[i - 1] == c[i]);
            assert(chain_has(c.skip(1), h));
        }
        if chain_has(c.skip(1), h) {
            let j = choose|j: int| 0 <= j < c.skip(1).len() && c.skip(1)[j].hash == h;
            assert(c[j + 1] == c.skip(1)[j]);
            assert(chain_has(c, h));
            let k = height_of(c.skip(1), h);
            assert(c[k + 1] == c.skip(1)[k]);
            assert forall|j2: int| 0 <= j2 < height_of(c, h) implies c[j2].hash != h by {
                if j2 > 0 {
                    assert(c.skip(1)[j2 - 1] == c[j2]);
                }
            }
        }
    }
}

/// The node's chain storage: the canonical chain, genesis first. Well-formed
/// storage is non-empty (the genesis block always exists), short enough that
/// every height fits in `u32`, and holds each block hash at most once.
#[derive(Clone, Debug, PartialEq, Eq)]
pub struct Ledger {
    pub blocks: Vec<StoredBlock>,
}

impl View for Ledger {
    type V = Seq<StoredBlockV>;

    open spec fn view(&self) -> Seq<StoredBlockV> {
        self.blocks@.map(|i: int, b: StoredBlock| b@)
    }
}

impl Ledger {
    pub open spec fn wf(&self) -> bool {
        &&& 1 <= self@.len() <= 0x1_0000_0000
        &&& chain_hashes(self@).no_duplicates()
    }

    /// Creates storage holding only the genesis block.
    pub fn new(genesis_hash: BlockHeaderHash, genesis_data: Vec<u8>) -> (r: Ledger)
        ensures
            r.wf(),
            r@ == seq![StoredBlockV { hash: genesis_hash, data: genesis_data@ }],
    {
        let ghost gv = StoredBlockV { hash: genesis_hash, data: genesis_data@ };
        let mut blocks: Vec<StoredBlock> = Vec::new();
        blocks.push(StoredBlock { hash: genesis_hash, data: genesis_data });
        let r = Ledger { blocks };
        proof {
            assert(r@ =~= seq![gv]);
            assert(chain_hashes(r@) =~= seq![genesis_hash]);
        }
        r
    }

    /// The height of the chain tip.
    pub fn get_current_block_height(&self) -> (r: u32)
        requires
            self.wf(),
        ensures
            r as int == self@.len() - 1,
    {
        (self.blocks.len() - 1) as u32
    }

    /// Whether a block with this header hash is already stored.
    pub fn block_hash_exists(&self, block_hash: BlockHeaderHash) -> (r: bool)
        ensures
            r == chain_has(self@, block_hash),
    {
        let mut i: usize = 0;
        while i < self.blocks.len()
            invariant
                i <= self.blocks.len(),
                forall|j: int| 0 <= j < i ==> self@[j].hash != block_hash,
            decreases self.blocks.len() - i,
        {
            if self.blocks[i].hash == block_hash {
                proof {
                    assert(self@[i as int] == self.blocks@[i as int]@);
                }
                return true;
            }
            i = i + 1;
        }
        false
    }

    /// The height of the block carrying this hash, if the chain has it.
    pub fn get_block_number(&self, block_hash: BlockHeaderHash) -> (r: Option<u32>)
        requires
            self.wf(),
        ensures
            chain_has(self@, block_hash) ==> r == Some(height_of(self@, block_hash) as u32),
            !chain_has(self@, block_hash) ==> r == None::<u32>,
    {
        proof {
            lemma_height_of(self@, block_hash);
        }
        let mut i: usize = 0;
        while i < self.blocks.len()
            invariant
                i <= self.blocks.len(),
                self.wf(),
                forall|j: int| 0 <= j < i ==> self@[j].hash != block_hash,
            decreases self.blocks.len() - i,
        {
            if self.blocks[i].hash == block_hash {
                proof {
                    assert(self@[i as int] == self.blocks@[i as int]@);
                    assert(chain_has(self@, block_hash));
                    lemma_height_of(self@, block_hash);
                }
                return Some(i as u32);
            }
            i = i + 1;
        }
        None
    }

    /// The hash at a height the chain reaches.
    pub fn get_block_hash(&self, block_num: u32) -> (r: BlockHeaderHash)
        requires
            (block_num as int) < self@.len(),
        ensures
            r == self@[block_num as int].hash,
    {
        self.blocks[block_num as usize].hash
    }

    /// The serialized bytes of the block carrying this hash, if the chain has
    /// it.
    pub fn get_block(&self, block_hash: BlockHeaderHash) -> (r: Option<Vec<u8>>)
        ensures
            chain_has(self@, block_hash) ==> {
                &&& r is Some
                &&& r.unwrap()@ == chain_data(self@, block_hash)
            },
            !chain_has(self@, block_hash) ==> r is None,
    {
        let mut i: usize = 0;
        while i < self.blocks.len()
            invariant
                i <= self.blocks.len(),
                forall|j: int| 0 <= j < i ==> self@[j].hash != block_hash,
            decreases self.blocks.len() - i,
        {
            if self.blocks[i].hash == block_hash {
                let data = self.blocks[i].data.clone();
                proof {
                    assert(self@[i as int] == self.blocks@[i as int]@);
                    assert(chain_has(self@, block_hash));
                    lemma_height_of(self@, block_hash);
                    assert(height_of(self@, block_hash) == i);
                    assert(data@ =~= self@[i as int].data);
                }
                return Some(data);
            }
            i = i + 1;
        }
        None
    }

    /// The locator hashes this node offers a sync partner: every canonical
    /// hash, most recent first.
    pub fn get_block_locator_hashes(&self) -> (r: Vec<BlockHeaderHash>)
        ensures
            r@ == locator_hashes(self@),
    {
        let n = self.blocks.len();
        let mut r: Vec<BlockHeaderHash> = Vec::new();
        let mut i: usize = 0;
        while i < n
            invariant
                i <= n,
                n == self.blocks.len(),
                r@.len() == i,
                forall|j: int| 0 <= j < i ==> r@[j] == self@[n - 1 - j].hash,
            decreases n - i,
        {
            r.push(self.blocks[n - 1 - i].hash);
            i = i + 1;
        }
        proof {
            assert(r@ =~= locator_hashes(self@));
        }
        r
    }

    /// The most recent hash in the locator sequence that this chain also
    /// has: the requester's and responder's common-ancestor estimate. The
    /// locator is scanned in the given order, most recent first.
    pub fn get_latest_shared_hash(&self, block_locator_hashes: &Vec<BlockHeaderHash>) -> (r: Option<
        BlockHeaderHash,
    >)
        ensures
            r == first_shared(self@, block_locator_hashes@),
    {
        let n = block_locator_hashes.len();
        let mut i: usize = 0;
        proof {
            assert(block_locator_hashes@.skip(0) =~= block_locator_hashes@);
        }
        while i < n
            invariant
                i <= n,
                n == block_locator_hashes.len(),
                first_shared(self@, block_locator_hashes@) == first_shared(
                    self@,
                    block_locator_hashes@.skip(i as int),
                ),
            decreases n - i,
        {
            let h = block_locator_hashes[i];
            proof {
                assert(block_locator_hashes@.skip(i as int)[0] == h);
            }
            if self.block_hash_exists(h) {
                return Some(h);
            }
            proof {
                assert(block_locator_hashes@.skip(i as int).skip(1) =~= block_locator_hashes@.skip(
                    i as int + 1,
                ));
            }
            i = i + 1;
        }
        None
    }

    /// Appends a freshly validated block at the next height. Admission of a
    /// hash the chain already has is the caller's to rule out, which keeps
    /// every hash unique.
    pub fn commit_block(&mut self, hash: BlockHeaderHash, data: Vec<u8>)
        requires
            old(self).wf(),
            !chain_has(old(self)@, hash),
            old(self)@.len() < 0x1_0000_0000,
        ensures
            final(self).wf(),
            final(self)@ == old(self)@.push(StoredBlockV { hash, data: data@ }),
    {
        let ghost prev = self@;
        let ghost bv = StoredBlockV { hash, data: data@ };
        self.blocks.push(StoredBlock { hash, data });
        proof {
            assert(self@ =~= prev.push(bv));
            assert(chain_hashes(self@) =~= chain_hashes(prev).push(hash));
            assert forall|i: int, j: int|
                0 <= i < chain_hashes(self@).len() && 0 <= j < chain_hashes(self@).len() && i
                    != j implies chain_hashes(self@)[i] != chain_hashes(self@)[j] by {
                if i < prev.len() && j < prev.len() {
                } else if i == prev.len() {
                    assert(!chain_has(prev, hash));
                    assert(prev[j].hash != hash);
                } else {
                    assert(!chain_has(prev, hash));
                    assert(prev[i].hash != hash);
                }
            }
        }
    }
}

/// The locator hash sequence of a chain: every hash, most recent first.
pub open spec fn locator_hashes(c: Seq<StoredBlockV>) -> Seq<BlockHeaderHash> {
    Seq::new(c.len(), |i: int| c[c.len() - 1 - i].hash)
}

/// The first locator hash the chain also has, scanning in locator order.
pub open spec fn first_shared(
    c: Seq<StoredBlockV>,
    locator: Seq<BlockHeaderHash>,
) -> Option<BlockHeaderHash>
    decreases locator.len(),
{
    if locator.len() == 0 {
        None
    } else if chain_has(c, locator[0]) {
        Some(locator[0])
    } else {
        first_shared(c, locator.skip(1))
    }
}

/// A shared hash handed back by `first_shared` is one the chain has and the
/// locator offered; when none comes back, chain and locator share nothing.
pub proof fn lemma_first_shared(c: Seq<StoredBlockV>, locator: Seq<BlockHeaderHash>)
    ensures
        match first_shared(c, locator) {
            Some(h) => chain_has(c, h) && locator.contains(h),
            None => forall|j: int| 0 <= j < locator.len() ==> !chain_has(c, locator[j]),
        },
    decreases locator.len(),
{
    if locator.len() == 0 {
    } else if chain_has(c, locator[0]) {
    } else {
        lemma_first_shared(c, locator.skip(1));
        match first_shared(c, locator.skip(1)) {
            Some(h) => {
                let j = choose|j: int| 0 <= j < locator.skip(1).len() && locator.skip(1)[j] == h;
                assert(locator[j + 1] == h);
            },
            None => {
                assert forall|j: int| 0 <= j < locator.len() implies !chain_has(c, locator[j]) by {
                    if j > 0 {
                        assert(locator.skip(1)[j - 1] == locator[j]);
                    }
                }
            },
        }
    }
}

} // verus!
