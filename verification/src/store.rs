//! The persistent chain store and its transactional batch.
//!
//! The store keeps block headers, block bodies and block sums, each keyed
//! by header hash, together with the four named tips. A [`Batch`] collects
//! pending writes; reads through a batch see its pending writes layered
//! over the committed state, commit applies them all at once, and dropping
//! or clearing the batch discards them all.

use vstd::prelude::*;

use crate::types::Block;
use crate::types::BlockHeader;
use crate::types::BlockSums;
use crate::types::BlockV;
use crate::types::Tip;
use crate::types::copy_block;
use crate::types::hash_of;

verus! {

/// Mathematical view shared by the committed store and a batch: the
/// key-value namespaces as sequences of saved records (later records
/// shadow earlier ones with the same hash), plus the four tips.
pub ghost struct StoreV {
    /// Saved headers, oldest first.
    pub headers: Seq<BlockHeader>,
    /// Saved blocks, oldest first.
    pub blocks: Seq<BlockV>,
    /// Saved block sums with the hash they are stored under.
    pub sums: Seq<(u64, BlockSums)>,
    /// Best full-block tip.
    pub head: Option<Tip>,
    /// Best header-only tip.
    pub header_head: Option<Tip>,
    /// Scratch tip used during header sync.
    pub sync_head: Option<Tip>,
    /// Earliest full block retained.
    pub tail: Option<Tip>,
}

/// Whether a batch view holds no pending write.
pub open spec fn batch_is_empty(v: StoreV) -> bool {
    &&& v.headers.len() == 0
    &&& v.blocks.len() == 0
    &&& v.sums.len() == 0
    &&& v.head is None
    &&& v.header_head is None
    &&& v.sync_head is None
    &&& v.tail is None
}

/// Last saved header with the given hash.
pub open spec fn find_header_in(s: Seq<BlockHeader>, h: u64) -> Option<BlockHeader>
    decreases s.len(),
{
    if s.len() == 0 {
        None
    } else if hash_of(s.last()) == h {
        Some(s.last())
    } else {
        find_header_in(s.drop_last(), h)
    }
}

/// Last saved block with the given header hash.
pub open spec fn find_block_in(s: Seq<BlockV>, h: u64) -> Option<BlockV>
    decreases s.len(),
{
    if s.len() == 0 {
        None
    } else if hash_of(s.last().header) == h {
        Some(s.last())
    } else {
        find_block_in(s.drop_last(), h)
    }
}

/// Last saved sums stored under the given hash.
pub open spec fn find_sums_in(s: Seq<(u64, BlockSums)>, h: u64) -> Option<BlockSums>
    decreases s.len(),
{
    if s.len() == 0 {
        None
    } else if s.last().0 == h {
        Some(s.last().1)
    } else {
        find_sums_in(s.drop_last(), h)
    }
}

/// Headers visible through a batch over a store.
pub open spec fn eff_headers(s: StoreV, b: StoreV) -> Seq<BlockHeader> {
    s.headers + b.headers
}

/// Blocks visible through a batch over a store.
pub open spec fn eff_blocks(s: StoreV, b: StoreV) -> Seq<BlockV> {
    s.blocks + b.blocks
}

/// Sums visible through a batch over a store.
pub open spec fn eff_sums(s: StoreV, b: StoreV) -> Seq<(u64, BlockSums)> {
    s.sums + b.sums
}

/// The `head` tip visible through a batch over a store.
pub open spec fn eff_head(s: StoreV, b: StoreV) -> Option<Tip> {
    match b.head {
        Some(t) => Some(t),
        None => s.head,
    }
}

/// The `header_head` tip visible through a batch over a store.
pub open spec fn eff_header_head(s: StoreV, b: StoreV) -> Option<Tip> {
    match b.header_head {
        Some(t) => Some(t),
        None => s.header_head,
    }
}

/// The `sync_head` tip visible through a batch over a store.
pub open spec fn eff_sync_head(s: StoreV, b: StoreV) -> Option<Tip> {
    match b.sync_head {
        Some(t) => Some(t),
        None => s.sync_head,
    }
}

/// The `tail` tip visible through a batch over a store.
pub open spec fn eff_tail(s: StoreV, b: StoreV) -> Option<Tip> {
    match b.tail {
        Some(t) => Some(t),
        None => s.tail,
    }
}

/// A lookup in a concatenation finds the later part's record first.
pub proof fn lemma_find_header_concat(a: Seq<BlockHeader>, b: Seq<BlockHeader>, h: u64)
    ensures
        find_header_in(a + b, h) == (match find_header_in(b, h) {
            Some(x) => Some(x),
            None => find_header_in(a, h),
        }),
    decreases b.len(),
{
    if b.len() == 0 {
        assert(a + b =~= a);
    } else {
        assert((a + b).drop_last() =~= a + b.drop_last());
        lemma_find_header_concat(a, b.drop_last(), h);
    }
}

/// A lookup in a concatenation finds the later part's record first.
pub proof fn lemma_find_block_concat(a: Seq<BlockV>, b: Seq<BlockV>, h: u64)
    ensures
        find_block_in(a + b, h) == (match find_block_in(b, h) {
            Some(x) => Some(x),
            None => find_block_in(a, h),
        }),
    decreases b.len(),
{
    if b.len() == 0 {
        assert(a + b =~= a);
    } else {
        assert((a + b).drop_last() =~= a + b.drop_last());
        lemma_find_block_concat(a, b.drop_last(), h);
    }
}

/// A lookup in a concatenation finds the later part's record first.
pub proof fn lemma_find_sums_concat(a: Seq<(u64, BlockSums)>, b: Seq<(u64, BlockSums)>, h: u64)
    ensures
        find_sums_in(a + b, h) == (match find_sums_in(b, h) {
            Some(x) => Some(x),
            None => find_sums_in(a, h),
        }),
    decreases b.len(),
{
    if b.len() == 0 {
        assert(a + b =~= a);
    } else {
        assert((a + b).drop_last() =~= a + b.drop_last());
        lemma_find_sums_concat(a, b.drop_last(), h);
    }
}

/// Scan a header vector from the back for the given hash.
fn scan_headers(v: &Vec<BlockHeader>, h: u64) -> (r: Option<BlockHeader>)
    ensures
        r == find_header_in(v@, h),
{
    let mut i: usize = v.len();
    assert(v@.take(v@.len() as int) =~= v@);
    while i > 0
        invariant
            0 <= i <= v.len(),
            find_header_in(v@, h) == find_header_in(v@.take(i as int), h),
        decreases i,
    {
        i = i - 1;
        assert(v@.take(i as int + 1).drop_last() =~= v@.take(i as int));
        assert(v@.take(i as int + 1).last() == v@[i as int]);
        if v[i].hash() == h {
            return Some(v[i]);
        }
    }
    None
}

/// Scan a block vector from the back for the given header hash.
fn scan_blocks(v: &Vec<Block>, h: u64) -> (r: Option<Block>)
    ensures
        r is Some <==> find_block_in(v@.map_values(|b: Block| b@), h) is Some,
        r is Some ==> r.unwrap()@ == find_block_in(v@.map_values(|b: Block| b@), h).unwrap(),
{
    let ghost s = v@.map_values(|b: Block| b@);
    let mut i: usize = v.len();
    assert(s.take(s.len() as int) =~= s);
    while i > 0
        invariant
            0 <= i <= v.len(),
            s == v@.map_values(|b: Block| b@),
            find_block_in(s, h) == find_block_in(s.take(i as int), h),
        decreases i,
    {
        i = i - 1;
        assert(s.take(i as int + 1).drop_last() =~= s.take(i as int));
        assert(s.take(i as int + 1).last() == s[i as int]);
        if v[i].header.hash() == h {
            return Some(copy_block(&v[i]));
        }
    }
    None
}

/// Scan a sums vector from the back for the given hash.
fn scan_sums(v: &Vec<(u64, BlockSums)>, h: u64) -> (r: Option<BlockSums>)
    ensures
        r == find_sums_in(v@, h),
{
    let mut i: usize = v.len();
    assert(v@.take(v@.len() as int) =~= v@);
    while i > 0
        invariant
            0 <= i <= v.len(),
            find_sums_in(v@, h) == find_sums_in(v@.take(i as int), h),
        decreases i,
    {
        i = i - 1;
        assert(v@.take(i as int + 1).drop_last() =~= v@.take(i as int));
        assert(v@.take(i as int + 1).last() == v@[i as int]);
        if v[i].0 == h {
            return Some(v[i].1);
        }
    }
    None
}

/// The committed persistent state.
pub struct ChainStore {
    /// Saved headers, oldest first.
    pub headers: Vec<BlockHeader>,
    /// Saved blocks, oldest first.
    pub blocks: Vec<Block>,
    /// Saved block sums, keyed by the hash they are stored under.
    pub sums: Vec<(u64, BlockSums)>,
    /// Best full-block tip.
    pub head: Option<Tip>,
    /// Best header-only tip.
    pub header_head: Option<Tip>,
    /// Scratch tip used during header sync.
    pub sync_head: Option<Tip>,
    /// Earliest full block retained.
    pub tail: Option<Tip>,
}

impl View for ChainStore {
    type V = StoreV;

    open spec fn view(&self) -> StoreV {
        StoreV {
            headers: self.headers@,
            blocks: self.blocks@.map_values(|b: Block| b@),
            sums: self.sums@,
            head: self.head,
            header_head: self.header_head,
            sync_head: self.sync_head,
            tail: self.tail,
        }
    }
}

impl ChainStore {
    /// An empty store, before chain initialization.
    pub fn new() -> (r: ChainStore)
        ensures
            batch_is_empty(r@),
    {
        ChainStore {
            headers: Vec::new(),
            blocks: Vec::new(),
            sums: Vec::new(),
            head: None,
            header_head: None,
            sync_head: None,
            tail: None,
        }
    }

    /// Committed header lookup by hash.
    pub fn get_block_header(&self, h: u64) -> (r: Option<BlockHeader>)
        ensures
            r == find_header_in(self@.headers, h),
    {
        scan_headers(&self.headers, h)
    }

    /// Committed block lookup by header hash.
    pub fn get_block(&self, h: u64) -> (r: Option<Block>)
        ensures
            r is Some <==> find_block_in(self@.blocks, h) is Some,
            r is Some ==> r.unwrap()@ == find_block_in(self@.blocks, h).unwrap(),
    {
        scan_blocks(&self.blocks, h)
    }

    /// Committed sums lookup by hash.
    pub fn get_block_sums(&self, h: u64) -> (r: Option<BlockSums>)
        ensures
            r == find_sums_in(self@.sums, h),
    {
        scan_sums(&self.sums, h)
    }

    /// The committed best full-block tip.
    pub fn head(&self) -> (r: Option<Tip>)
        ensures
            r == self@.head,
    {
        self.head
    }

    /// The committed best header tip.
    pub fn header_head(&self) -> (r: Option<Tip>)
        ensures
            r == self@.header_head,
    {
        self.header_head
    }
}

/// A snapshot of a batch's extent, for partial rollback.
#[derive(Clone, Copy)]
pub struct BatchMark {
    /// Number of pending headers at the snapshot.
    pub n_headers: usize,
    /// Number of pending blocks at the snapshot.
    pub n_blocks: usize,
    /// Number of pending sums at the snapshot.
    pub n_sums: usize,
    /// Pending `head` write at the snapshot.
    pub head: Option<Tip>,
    /// Pending `header_head` write at the snapshot.
    pub header_head: Option<Tip>,
    /// Pending `sync_head` write at the snapshot.
    pub sync_head: Option<Tip>,
    /// Pending `tail` write at the snapshot.
    pub tail: Option<Tip>,
}

/// Pending writes of one pipeline invocation.
pub struct Batch {
    /// Pending headers, oldest first.
    pub headers: Vec<BlockHeader>,
    /// Pending blocks, oldest first.
    pub blocks: Vec<Block>,
    /// Pending sums.
    pub sums: Vec<(u64, BlockSums)>,
    /// Pending `head` write.
    pub head: Option<Tip>,
    /// Pending `header_head` write.
    pub header_head: Option<Tip>,
    /// Pending `sync_head` write.
    pub sync_head: Option<Tip>,
    /// Pending `tail` write.
    pub tail: Option<Tip>,
}

impl View for Batch {
    type V = StoreV;

    open spec fn view(&self) -> StoreV {
        StoreV {
            headers: self.headers@,
            blocks: self.blocks@.map_values(|b: Block| b@),
            sums: self.sums@,
            head: self.head,
            header_head: self.header_head,
            sync_head: self.sync_head,
            tail: self.tail,
        }
    }
}

impl Batch {
    /// A fresh, empty batch.
    pub fn new() -> (r: Batch)
        ensures
            batch_is_empty(r@),
    {
        Batch {
            headers: Vec::new(),
            blocks: Vec::new(),
            sums: Vec::new(),
            head: None,
            header_head: None,
            sync_head: None,
            tail: None,
        }
    }

    /// Header lookup by hash: pending writes first, then the store.
    pub fn get_block_header(&self, store: &ChainStore, h: u64) -> (r: Option<BlockHeader>)
        ensures
            r == find_header_in(eff_headers(store@, self@), h),
    {
        proof {
            lemma_find_header_concat(store@.headers, self@.headers, h);
        }
        match scan_headers(&self.headers, h) {
            Some(x) => Some(x),
            None => scan_headers(&store.headers, h),
        }
    }

    /// The header the given header lists as its parent.
    pub fn get_previous_header(&self, store: &ChainStore, header: &BlockHeader) -> (r: Option<
        BlockHeader,
    >)
        ensures
            r == find_header_in(eff_headers(store@, self@), header.prev_hash),
    {
        self.get_block_header(store, header.prev_hash)
    }

    /// Whether a block body with the given header hash is saved.
    pub fn block_exists(&self, store: &ChainStore, h: u64) -> (r: bool)
        ensures
            r == (find_block_in(eff_blocks(store@, self@), h) is Some),
    {
        proof {
            lemma_find_block_concat(store@.blocks, self@.blocks, h);
        }
        match scan_blocks(&self.blocks, h) {
            Some(_) => true,
            None => scan_blocks(&store.blocks, h).is_some(),
        }
    }

    /// Block lookup by header hash: pending writes first, then the store.
    pub fn get_block(&self, store: &ChainStore, h: u64) -> (r: Option<Block>)
        ensures
            r is Some <==> find_block_in(eff_blocks(store@, self@), h) is Some,
            r is Some ==> r.unwrap()@ == find_block_in(eff_blocks(store@, self@), h).unwrap(),
    {
        proof {
            lemma_find_block_concat(store@.blocks, self@.blocks, h);
        }
        match scan_blocks(&self.blocks, h) {
            Some(b) => Some(b),
            None => scan_blocks(&store.blocks, h),
        }
    }

    /// Sums lookup by hash: pending writes first, then the store.
    pub fn get_block_sums(&self, store: &ChainStore, h: u64) -> (r: Option<BlockSums>)
        ensures
            r == find_sums_in(eff_sums(store@, self@), h),
    {
        proof {
            lemma_find_sums_concat(store@.sums, self@.sums, h);
        }
        match scan_sums(&self.sums, h) {
            Some(x) => Some(x),
            None => scan_sums(&store.sums, h),
        }
    }

    /// The `head` tip as seen through this batch.
    pub fn head(&self, store: &ChainStore) -> (r: Option<Tip>)
        ensures
            r == eff_head(store@, self@),
    {
        match self.head {
            Some(t) => Some(t),
            None => store.head,
        }
    }

    /// The `header_head` tip as seen through this batch.
    pub fn header_head(&self, store: &ChainStore) -> (r: Option<Tip>)
        ensures
            r == eff_header_head(store@, self@),
    {
        match self.header_head {
            Some(t) => Some(t),
            None => store.header_head,
        }
    }

    /// The `sync_head` tip as seen through this batch.
    pub fn get_sync_head(&self, store: &ChainStore) -> (r: Option<Tip>)
        ensures
            r == eff_sync_head(store@, self@),
    {
        match self.sync_head {
            Some(t) => Some(t),
            None => store.sync_head,
        }
    }

    /// The `tail` tip as seen through this batch.
    pub fn tail(&self, store: &ChainStore) -> (r: Option<Tip>)
        ensures
            r == eff_tail(store@, self@),
    {
        match self.tail {
            Some(t) => Some(t),
            None => store.tail,
        }
    }

    /// Queue a header for saving.
    pub fn save_block_header(&mut self, bh: &BlockHeader)
        ensures
            final(self)@ == (StoreV { headers: old(self)@.headers.push(*bh), ..old(self)@ }),
    {
        self.headers.push(*bh);
    }

    /// Queue a block body for saving.
    pub fn save_block(&mut self, b: &Block)
        ensures
            final(self)@ == (StoreV { blocks: old(self)@.blocks.push(b@), ..old(self)@ }),
    {
        let c = copy_block(b);
        self.blocks.push(c);
        assert(self@.blocks =~= old(self)@.blocks.push(b@));
    }

    /// Queue block sums for saving under the given hash.
    pub fn save_block_sums(&mut self, h: u64, s: &BlockSums)
        ensures
            final(self)@ == (StoreV { sums: old(self)@.sums.push((h, *s)), ..old(self)@ }),
    {
        self.sums.push((h, *s));
    }

    /// Queue a `head` update.
    pub fn save_body_head(&mut self, t: &Tip)
        ensures
            final(self)@ == (StoreV { head: Some(*t), ..old(self)@ }),
    {
        self.head = Some(*t);
    }

    /// Queue a `header_head` update.
    pub fn save_header_head(&mut self, t: &Tip)
        ensures
            final(self)@ == (StoreV { header_head: Some(*t), ..old(self)@ }),
    {
        self.header_head = Some(*t);
    }

    /// Queue a `sync_head` update.
    pub fn save_sync_head(&mut self, t: &Tip)
        ensures
            final(self)@ == (StoreV { sync_head: Some(*t), ..old(self)@ }),
    {
        self.sync_head = Some(*t);
    }

    /// Queue a `tail` update.
    pub fn save_body_tail(&mut self, t: &Tip)
        ensures
            final(self)@ == (StoreV { tail: Some(*t), ..old(self)@ }),
    {
        self.tail = Some(*t);
    }

    /// Snapshot the batch's current extent.
    pub fn snapshot(&self) -> (r: BatchMark)
        ensures
            r.n_headers == self@.headers.len(),
            r.n_blocks == self@.blocks.len(),
            r.n_sums == self@.sums.len(),
            r.head == self@.head,
            r.header_head == self@.header_head,
            r.sync_head == self@.sync_head,
            r.tail == self@.tail,
    {
        BatchMark {
            n_headers: self.headers.len(),
            n_blocks: self.blocks.len(),
            n_sums: self.sums.len(),
            head: self.head,
            header_head: self.header_head,
            sync_head: self.sync_head,
            tail: self.tail,
        }
    }

    /// Discard every write made after the given snapshot.
    pub fn rollback_to(&mut self, m: BatchMark)
        requires
            m.n_headers <= old(self)@.headers.len(),
            m.n_blocks <= old(self)@.blocks.len(),
            m.n_sums <= old(self)@.sums.len(),
        ensures
            final(self)@.headers == old(self)@.headers.take(m.n_headers as int),
            final(self)@.blocks == old(self)@.blocks.take(m.n_blocks as int),
            final(self)@.sums == old(self)@.sums.take(m.n_sums as int),
            final(self)@.head == m.head,
            final(self)@.header_head == m.header_head,
            final(self)@.sync_head == m.sync_head,
            final(self)@.tail == m.tail,
    {
        self.headers.truncate(m.n_headers);
        self.blocks.truncate(m.n_blocks);
        self.sums.truncate(m.n_sums);
        self.head = m.head;
        self.header_head = m.header_head;
        self.sync_head = m.sync_head;
        self.tail = m.tail;
        assert(self@.headers =~= old(self)@.headers.take(m.n_headers as int));
        assert(self@.blocks =~= old(self)@.blocks.take(m.n_blocks as int));
        assert(self@.sums =~= old(self)@.sums.take(m.n_sums as int));
    }

    /// Discard every pending write.
    pub fn clear(&mut self)
        ensures
            batch_is_empty(final(self)@),
    {
        self.headers.clear();
        self.blocks.clear();
        self.sums.clear();
        self.head = None;
        self.header_head = None;
        self.sync_head = None;
        self.tail = None;
    }

    /// Apply every pending write to the store, all at once, and leave the
    /// batch empty.
    pub fn commit(&mut self, store: &mut ChainStore)
        ensures
            final(store)@.headers == eff_headers(old(store)@, old(self)@),
            final(store)@.blocks == eff_blocks(old(store)@, old(self)@),
            final(store)@.sums == eff_sums(old(store)@, old(self)@),
            final(store)@.head == eff_head(old(store)@, old(self)@),
            final(store)@.header_head == eff_header_head(old(store)@, old(self)@),
            final(store)@.sync_head == eff_sync_head(old(store)@, old(self)@),
            final(store)@.tail == eff_tail(old(store)@, old(self)@),
            batch_is_empty(final(self)@),
    {
        store.headers.append(&mut self.headers);
        store.blocks.append(&mut self.blocks);
        store.sums.append(&mut self.sums);
        assert(store@.blocks =~= eff_blocks(old(store)@, old(self)@));
        match self.head {
            Some(t) => {
                store.head = Some(t);
            },
            None => {},
        }
        match self.header_head {
            Some(t) => {
                store.header_head = Some(t);
            },
            None => {},
        }
        match self.sync_head {
            Some(t) => {
                store.sync_head = Some(t);
            },
            None => {},
        }
        match self.tail {
            Some(t) => {
                store.tail = Some(t);
            },
            None => {},
        }
        self.head = None;
        self.header_head = None;
        self.sync_head = None;
        self.tail = None;
    }
}

} // verus!
