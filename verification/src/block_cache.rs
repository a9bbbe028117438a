//! Caching device blocks in memory.
//!
//! A `BlockCache` holds one block and remembers whether it was changed since
//! it was read; `sync` writes a changed block back. A `BlockCacheManager`
//! keeps up to `BLOCK_CACHE_SIZE` shared, locked caches, at most one per
//! block, in the order they were loaded. When it is full and a new block is
//! asked for, it gives up the oldest cache that nobody else holds.
use vstd::prelude::*;
use std::collections::VecDeque;
use std::sync::Arc;
use spin::rwlock::RwLock;
use crate::device::BlockDevice;
use crate::sync::{arc_clone, arc_strong_count, rwlock_new, rwlock_try_write_with};
use crate::BLOCK_SZ;

verus! {

/// One block of the device, held in memory.
pub struct BlockCache<D: BlockDevice + ?Sized> {
    pub cache: [u8; BLOCK_SZ],
    block_id: usize,
    block_device: Arc<D>,
    modified: bool,
    time_stamp: usize,
}

/// `s` with the `len` bytes at `offset` replaced by `part`.
pub open spec fn spec_splice(s: Seq<u8>, offset: int, len: int, part: Seq<u8>) -> Seq<u8> {
    s.subrange(0, offset) + part + s.subrange(offset + len, s.len() as int)
}

/// `<[u8] as IndexMut<Range<usize>>>::index_mut`, i.e. `&mut s[start..end]`:
/// the bytes from `start` up to `end` as a slice that changes `s` in place.
/// Taken to be: that part of `s` to begin with, of the same length at the end,
/// and `s` afterwards is `s` with that part replaced by what it ends as.
#[verifier::external_body]
fn slice_range_mut(s: &mut [u8], start: usize, end: usize) -> (r: &mut [u8])
    requires
        start <= end <= old(s)@.len(),
    ensures
        r@ == old(s)@.subrange(start as int, end as int),
        final(r)@.len() == end - start,
        final(s)@ == spec_splice(old(s)@, start as int, end - start, final(r)@),
{
    &mut s[start..end]
}

/// What is written in place through `get_mut` is what `get_ref` then reads
/// at the same position, and the bytes around it stay as they were.
pub proof fn lemma_splice_reads_back(s: Seq<u8>, offset: int, len: int, part: Seq<u8>)
    requires
        0 <= offset,
        0 <= len,
        offset + len <= s.len(),
        part.len() == len,
    ensures
        spec_splice(s, offset, len, part).len() == s.len(),
        spec_splice(s, offset, len, part).subrange(offset, offset + len) == part,
        spec_splice(s, offset, len, part).subrange(0, offset) == s.subrange(0, offset),
        spec_splice(s, offset, len, part).subrange(offset + len, s.len() as int) == s.subrange(
            offset + len,
            s.len() as int,
        ),
{
    let t = spec_splice(s, offset, len, part);
    assert(t.subrange(offset, offset + len) =~= part);
    assert(t.subrange(0, offset) =~= s.subrange(0, offset));
    assert(t.subrange(offset + len, s.len() as int) =~= s.subrange(offset + len, s.len() as int));
}

impl<D: BlockDevice + ?Sized> BlockCache<D> {
    /// The bytes of the block as held in memory.
    pub closed spec fn bytes(&self) -> Seq<u8> {
        self.cache@
    }

    /// The block this cache holds.
    pub closed spec fn id(&self) -> usize {
        self.block_id
    }

    /// The device the block belongs to.
    pub closed spec fn device(&self) -> Arc<D> {
        self.block_device
    }

    /// Whether the bytes were changed since they were read or written back.
    pub closed spec fn is_modified(&self) -> bool {
        self.modified
    }

    /// The cache always holds one whole block.
    pub proof fn lemma_block_len(&self)
        ensures
            self.bytes().len() == BLOCK_SZ,
    {
    }

    /// The time stamp of the cache.
    pub closed spec fn stamp(&self) -> usize {
        self.time_stamp
    }

    /// Load a new BlockCache from disk.
    pub fn new(block_id: usize, block_device: Arc<D>) -> (r: Self)
        ensures
            r.id() == block_id,
            r.device() == block_device,
            !r.is_modified(),
            r.stamp() == 0,
            r.bytes().len() == BLOCK_SZ,
            block_device.reads_as(block_id, r.bytes()),
    {
        let mut cache: [u8; BLOCK_SZ] = [0u8; BLOCK_SZ];
        block_device.read(block_id, &mut cache);
        let time_stamp: usize = 0;
        Self { cache, block_id, block_device, modified: false, time_stamp }
    }

    /// The `len` bytes at `offset`.
    pub fn get_ref(&self, offset: usize, len: usize) -> (r: &[u8])
        requires
            offset + len <= BLOCK_SZ,
        ensures
            r@ == self.bytes().subrange(offset as int, offset + len),
    {
        vstd::slice::slice_subrange(self.cache.as_slice(), offset, offset + len)
    }

    /// The `len` bytes at `offset`, to be changed in place; the cache counts
    /// as modified from now on.
    pub fn get_mut(&mut self, offset: usize, len: usize) -> (r: &mut [u8])
        requires
            offset + len <= BLOCK_SZ,
        ensures
            r@ == old(self).bytes().subrange(offset as int, offset + len),
            final(self).bytes() == spec_splice(old(self).bytes(), offset as int, len as int, final(r)@),
            final(r)@.len() == len,
            final(self).is_modified(),
            final(self).id() == old(self).id(),
            final(self).device() == old(self).device(),
            final(self).stamp() == old(self).stamp(),
    {
        self.modified = true;
        slice_range_mut(&mut self.cache, offset, offset + len)
    }

    /// Hand the `len` bytes at `offset` to `f` and return what it returns.
    pub fn read<V>(&self, offset: usize, len: usize, f: impl FnOnce(&[u8]) -> V) -> (r: V)
        requires
            offset + len <= BLOCK_SZ,
            forall|s: &[u8]|
                s@ == self.bytes().subrange(offset as int, offset + len) ==> #[trigger] f.requires(
                    (s,),
                ),
        ensures
            exists|s: &[u8]|
                s@ == self.bytes().subrange(offset as int, offset + len) && #[trigger] f.ensures(
                    (s,),
                    r,
                ),
    {
        let part: &[u8] = self.get_ref(offset, len);
        f(part)
    }

    /// Hand the `len` bytes at `offset` to `f` to change in place and return
    /// what it returns; the cache counts as modified from now on, and only
    /// those bytes can have changed.
    pub fn modify<V>(&mut self, offset: usize, len: usize, f: impl FnOnce(&mut [u8]) -> V) -> (r: V)
        requires
            offset + len <= BLOCK_SZ,
            forall|s: &mut [u8]| #[trigger] f.requires((s,)),
        ensures
            final(self).bytes().len() == BLOCK_SZ,
            final(self).bytes().subrange(0, offset as int) == old(self).bytes().subrange(
                0,
                offset as int,
            ),
            final(self).bytes().subrange(offset + len, BLOCK_SZ as int) == old(
                self,
            ).bytes().subrange(offset + len, BLOCK_SZ as int),
            exists|s: &mut [u8]|
                s@ == old(self).bytes().subrange(offset as int, offset + len) && #[trigger] f.ensures(
                    (s,),
                    r,
                ) && final(self).bytes() == spec_splice(
                    old(self).bytes(),
                    offset as int,
                    len as int,
                    final(s)@,
                ),
            final(self).is_modified(),
            final(self).id() == old(self).id(),
            final(self).device() == old(self).device(),
            final(self).stamp() == old(self).stamp(),
    {
        let part: &mut [u8] = self.get_mut(offset, len);
        f(part)
    }

    /// Write the block back to the device if it was changed; afterwards it
    /// counts as unchanged, and the bytes in memory are as they were.
    pub fn sync(&mut self)
        ensures
            old(self).is_modified() ==> old(self).device().written(old(self).id(), old(self).bytes()),
            !final(self).is_modified(),
            final(self).bytes() == old(self).bytes(),
            final(self).id() == old(self).id(),
            final(self).device() == old(self).device(),
            final(self).stamp() == old(self).stamp(),
    {
        if self.modified {
            self.modified = false;
            self.block_device.write(self.block_id, &self.cache);
        }
    }
}

/// How many blocks a manager keeps at most.
pub const BLOCK_CACHE_SIZE: usize = 10;

/// A shared, locked block cache.
pub type SharedBlockCache<D> = Arc<RwLock<BlockCache<D>>>;

/// The blocks of `entries`, in order.
pub open spec fn spec_ids<T>(entries: Seq<(usize, T)>) -> Seq<usize> {
    entries.map_values(|e: (usize, T)| e.0)
}

/// The position of the first entry of `entries` for block `block_id`.
pub open spec fn spec_first_index<T>(entries: Seq<(usize, T)>, block_id: usize, i: int) -> bool {
    &&& 0 <= i < entries.len()
    &&& entries[i].0 == block_id
    &&& forall|j: int| 0 <= j < i ==> entries[j].0 != block_id
}

/// `k` is the first position of `counts` that holds one.
pub open spec fn spec_first_one(counts: Seq<usize>, k: int) -> bool {
    &&& 0 <= k < counts.len()
    &&& counts[k] == 1
    &&& forall|j: int| 0 <= j < k ==> counts[j] != 1
}

/// What a full manager that was asked for block `block_id`, and that counted
/// `counts` holders of its caches, does: with a cache nobody else holds, the
/// oldest such one gives way to a new cache for the block at the end, which
/// is the result; with none, nothing changes and there is no result.
pub open spec fn spec_full_outcome<T>(
    before: Seq<(usize, T)>,
    after: Seq<(usize, T)>,
    counts: Seq<usize>,
    block_id: usize,
    r: Option<T>,
) -> bool {
    &&& counts.len() == BLOCK_CACHE_SIZE
    &&& match r {
        Some(c) => exists|k: int|
            #[trigger] spec_first_one(counts, k) && after == before.remove(k).push((block_id, c)),
        None => spec_no_one(counts) && after == before,
    }
}

/// What asking a manager holding `before` for block `block_id` does: a block
/// held already is handed out and nothing changes; with room, a new cache for
/// it is appended and handed out; a full manager does as `spec_full_outcome`
/// says for the holder counts it read.
pub open spec fn spec_get_outcome<T>(
    before: Seq<(usize, T)>,
    after: Seq<(usize, T)>,
    block_id: usize,
    r: Option<T>,
) -> bool {
    &&& spec_ids(before).contains(block_id) ==> {
        &&& after == before
        &&& r is Some
        &&& exists|i: int| spec_first_index(before, block_id, i) && before[i].1 == r->0
    }
    &&& !spec_ids(before).contains(block_id) && before.len() < BLOCK_CACHE_SIZE ==> {
        &&& r is Some
        &&& after == before.push((block_id, r->0))
    }
    &&& !spec_ids(before).contains(block_id) && before.len() == BLOCK_CACHE_SIZE ==> exists|
        counts: Seq<usize>,
    | #[trigger] spec_full_outcome(before, after, counts, block_id, r)
}

/// No position of `counts` holds one.
pub open spec fn spec_no_one(counts: Seq<usize>) -> bool {
    forall|j: int| 0 <= j < counts.len() ==> counts[j] != 1
}

/// The first position whose count is one: the oldest cache nobody else holds.
pub fn first_unshared(counts: &Vec<usize>) -> (r: Option<usize>)
    ensures
        match r {
            Some(i) => spec_first_one(counts@, i as int),
            None => spec_no_one(counts@),
        },
{
    let mut i: usize = 0;
    while i < counts.len()
        invariant
            i <= counts@.len(),
            forall|j: int| 0 <= j < i ==> counts@[j] != 1,
        decreases counts@.len() - i,
    {
        if counts[i] == 1 {
            return Some(i);
        }
        i = i + 1;
    }
    None
}

#[verifier::reject_recursive_types(D)]
pub struct BlockCacheManager<D: BlockDevice + ?Sized> {
    start_sec: usize,
    queue: VecDeque<(usize, SharedBlockCache<D>)>,
}

impl<D: BlockDevice + ?Sized> BlockCacheManager<D> {
    /// The caches held, oldest first, each with the block it holds.
    pub closed spec fn entries(&self) -> Seq<(usize, SharedBlockCache<D>)> {
        self.queue@
    }

    /// The blocks held, oldest first.
    pub open spec fn ids(&self) -> Seq<usize> {
        spec_ids(self.entries())
    }

    /// The sector at which block numbers start.
    pub closed spec fn start(&self) -> usize {
        self.start_sec
    }

    /// At most `BLOCK_CACHE_SIZE` caches, no block twice.
    pub open spec fn wf(&self) -> bool {
        &&& self.entries().len() <= BLOCK_CACHE_SIZE
        &&& self.ids().no_duplicates()
    }

    /// Every manager is well formed.
    #[verifier::type_invariant]
    spec fn inv(&self) -> bool {
        self.wf()
    }

    pub fn new() -> (r: Self)
        ensures
            r.entries() == Seq::<(usize, SharedBlockCache<D>)>::empty(),
            r.start() == 0,
            r.wf(),
    {
        let r = Self { start_sec: 0, queue: VecDeque::new() };
        assert(r.ids() =~= Seq::<usize>::empty());
        r
    }

    pub fn set_start_sec(&mut self, new_start_sec: usize)
        ensures
            final(self).start() == new_start_sec,
            final(self).entries() == old(self).entries(),
    {
        proof {
            use_type_invariant(&*self);
        }
        self.start_sec = new_start_sec;
    }

    pub fn get_start_sec(&self) -> (r: usize)
        ensures
            r == self.start(),
    {
        self.start_sec
    }

    /// Where block `block_id` is held, if it is.
    fn find(&self, block_id: usize) -> (r: Option<usize>)
        ensures
            match r {
                Some(i) => spec_first_index(self.entries(), block_id, i as int) && self.ids().contains(
                    block_id,
                ),
                None => !self.ids().contains(block_id),
            },
    {
        let mut i: usize = 0;
        while i < self.queue.len()
            invariant
                i <= self.entries().len(),
                forall|j: int| 0 <= j < i ==> self.entries()[j].0 != block_id,
            decreases self.entries().len() - i,
        {
            if self.queue[i].0 == block_id {
                assert(self.ids()[i as int] == block_id);
                return Some(i);
            }
            i = i + 1;
        }
        proof {
            if self.ids().contains(block_id) {
                let k = choose|k: int| 0 <= k < self.ids().len() && self.ids()[k] == block_id;
                assert(self.entries()[k].0 == block_id);
            }
        }
        None
    }

    /// The cache that holds block `block_id`, if one does.
    pub fn read_block_cache(&self, block_id: usize) -> (r: Option<SharedBlockCache<D>>)
        ensures
            r is Some <==> self.ids().contains(block_id),
            r matches Some(c) ==> exists|i: int|
                spec_first_index(self.entries(), block_id, i) && self.entries()[i].1 == c,
    {
        match self.find(block_id) {
            Some(i) => Some(arc_clone(&self.queue[i].1)),
            None => None,
        }
    }

    /// Given the number of holders of each cache, oldest first, give up the
    /// oldest cache that nobody else holds (count one) and return its
    /// position; it is written back first if it was changed and its lock is
    /// free. With no such cache nothing changes and `None` comes back.
    pub fn evict_unshared(&mut self, counts: &Vec<usize>) -> (r: Option<usize>)
        requires
            counts@.len() == old(self).entries().len(),
        ensures
            final(self).wf(),
            final(self).start() == old(self).start(),
            match r {
                Some(k) => {
                    &&& spec_first_one(counts@, k as int)
                    &&& final(self).entries() == old(self).entries().remove(k as int)
                },
                None => {
                    &&& spec_no_one(counts@)
                    &&& final(self).entries() == old(self).entries()
                },
            },
    {
        proof {
            use_type_invariant(&*self);
        }
        let ghost before = self.entries();
        match first_unshared(counts) {
            Some(victim) => {
                let mut queue: VecDeque<(usize, SharedBlockCache<D>)> = VecDeque::new();
                std::mem::swap(&mut queue, &mut self.queue);
                let removed = queue.remove(victim);
                if let Some(entry) = removed {
                    let _ = rwlock_try_write_with(&*entry.1, |c: &mut BlockCache<D>| c.sync());
                }
                proof {
                    lemma_ids_remove(before, victim as int);
                }
                self.queue = queue;
                Some(victim)
            },
            None => None,
        }
    }

    /// The cache that holds block `block_id`, loaded from `block_device` if no
    /// cache holds it yet. A manager that is full first counts the holders of
    /// each cache and gives up the oldest one that nobody else holds
    /// (`evict_unshared`); when every cache is held elsewhere, nothing changes
    /// and `None` comes back.
    pub fn get_block_cache(&mut self, block_id: usize, block_device: Arc<D>) -> (r: Option<
        SharedBlockCache<D>,
    >)
        ensures
            final(self).wf(),
            final(self).start() == old(self).start(),
            spec_get_outcome(old(self).entries(), final(self).entries(), block_id, r),
            r matches Some(c) ==> final(self).ids().contains(block_id) && exists|i: int|
                spec_first_index(final(self).entries(), block_id, i) && final(self).entries()[i].1
                    == c,
            r matches Some(c) ==> forall|i: int|
                0 <= i < final(self).entries().len() && #[trigger] final(self).entries()[i].0
                    == block_id ==> final(self).entries()[i].1 == c,
    {
        proof {
            use_type_invariant(&*self);
        }
        if let Some(i) = self.find(block_id) {
            let c: SharedBlockCache<D> = arc_clone(&self.queue[i].1);
            proof {
                self.lemma_one_entry_per_block(block_id, i as int);
            }
            return Some(c);
        }
        let ghost before = self.entries();
        let ghost mut seen: Seq<usize> = Seq::empty();
        let ghost mut victim: int = -1;
        if self.queue.len() == BLOCK_CACHE_SIZE {
            let mut counts: Vec<usize> = Vec::new();
            let mut i: usize = 0;
            while i < self.queue.len()
                invariant
                    i <= self.entries().len(),
                    counts@.len() == i,
                decreases self.entries().len() - i,
            {
                counts.push(arc_strong_count(&self.queue[i].1));
                i = i + 1;
            }
            proof {
                seen = counts@;
            }
            match self.evict_unshared(&counts) {
                Some(k) => {
                    proof {
                        victim = k as int;
                        lemma_ids_remove(before, k as int);
                    }
                },
                None => {
                    assert(spec_full_outcome(before, self.entries(), seen, block_id, None));
                    return None;
                },
            }
        }
        let ghost kept = self.entries();
        let block_cache: SharedBlockCache<D> = Arc::new(
            rwlock_new(BlockCache::new(block_id, arc_clone(&block_device))),
        );
        let mut queue: VecDeque<(usize, SharedBlockCache<D>)> = VecDeque::new();
        std::mem::swap(&mut queue, &mut self.queue);
        queue.push_back((block_id, arc_clone(&block_cache)));
        proof {
            lemma_ids_push(kept, (block_id, block_cache));
        }
        self.queue = queue;
        proof {
            assert(spec_first_index(self.entries(), block_id, kept.len() as int));
            assert(self.ids()[kept.len() as int] == block_id);
            self.lemma_one_entry_per_block(block_id, kept.len() as int);
            if before.len() == BLOCK_CACHE_SIZE {
                assert(spec_first_one(seen, victim));
                assert(seen.len() == BLOCK_CACHE_SIZE);
                assert(self.entries() == before.remove(victim).push((block_id, block_cache)));
                assert(spec_full_outcome(
                    before,
                    self.entries(),
                    seen,
                    block_id,
                    Some(block_cache),
                ));
            }
        }
        Some(block_cache)
    }

    /// The cache for block `block_id` counted from the start sector, brought
    /// into the manager as `get_block_cache` does; in `READ` mode it is then
    /// looked up again. `None` when the block number would pass `usize::MAX`
    /// or the manager is full and every cache is held elsewhere.
    pub fn cache_at(&mut self, block_id: usize, block_device: Arc<D>, rw_mode: CacheMode) -> (r:
        Option<SharedBlockCache<D>>)
        ensures
            final(self).wf(),
            final(self).start() == old(self).start(),
            old(self).start() + block_id > usize::MAX ==> r is None && final(self).entries() == old(
                self,
            ).entries(),
            old(self).start() + block_id <= usize::MAX ==> spec_get_outcome(
                old(self).entries(),
                final(self).entries(),
                (old(self).start() + block_id) as usize,
                r,
            ),
            r is None ==> final(self).entries() == old(self).entries(),
            r matches Some(c) ==> {
                &&& final(self).ids().contains((old(self).start() + block_id) as usize)
                &&& forall|i: int|
                    0 <= i < final(self).entries().len() && #[trigger] final(self).entries()[i].0
                        == (old(self).start() + block_id) as usize ==> final(self).entries()[i].1
                        == c
            },
    {
        proof {
            use_type_invariant(&*self);
        }
        let phy_blk_id: usize = match self.start_sec.checked_add(block_id) {
            Some(p) => p,
            None => {
                return None;
            },
        };
        match rw_mode {
            CacheMode::READ => {
                let got: Option<SharedBlockCache<D>> = self.get_block_cache(phy_blk_id, block_device);
                if got.is_none() {
                    return None;
                }
                let found: Option<SharedBlockCache<D>> = self.read_block_cache(phy_blk_id);
                proof {
                    let c = got->0;
                    let c2 = found->0;
                    let i = choose|i: int|
                        spec_first_index(self.entries(), phy_blk_id, i) && self.entries()[i].1 == c2;
                    assert(self.entries()[i].0 == phy_blk_id);
                    assert(c2 == c);
                    assert(found == got);
                }
                found
            },
            CacheMode::WRITE => self.get_block_cache(phy_blk_id, block_device),
        }
    }

    /// With no block held twice, the entry at `i` is the only one for its block.
    proof fn lemma_one_entry_per_block(&self, block_id: usize, i: int)
        requires
            self.wf(),
            0 <= i < self.entries().len(),
            self.entries()[i].0 == block_id,
        ensures
            forall|j: int|
                0 <= j < self.entries().len() && #[trigger] self.entries()[j].0 == block_id ==> j
                    == i,
    {
        assert forall|j: int|
            0 <= j < self.entries().len() && #[trigger] self.entries()[j].0 == block_id implies j
                == i by {
            assert(self.ids()[j] == block_id && self.ids()[i] == block_id);
        }
    }

    /// Write back every cache whose lock is free at once, and let go of all
    /// of them.
    pub fn drop_all(&mut self)
        ensures
            final(self).entries() == Seq::<(usize, SharedBlockCache<D>)>::empty(),
            final(self).start() == old(self).start(),
            final(self).wf(),
    {
        let mut i: usize = 0;
        while i < self.queue.len()
            invariant
                i <= self.entries().len(),
            decreases self.entries().len() - i,
        {
            let _ = rwlock_try_write_with(&*self.queue[i].1, |c: &mut BlockCache<D>| c.sync());
            i = i + 1;
        }
        self.queue = VecDeque::new();
        assert(self.ids() =~= Seq::<usize>::empty());
    }
}

/// One block, one cache: the cache `read_block_cache` finds for a block is
/// the one `get_block_cache` handed out for it, as long as the entries held
/// are the same.
pub proof fn lemma_read_finds_what_get_gave<T>(entries: Seq<(usize, T)>, block_id: usize, got: T, found: T)
    requires
        exists|i: int| spec_first_index(entries, block_id, i) && entries[i].1 == got,
        exists|j: int| spec_first_index(entries, block_id, j) && entries[j].1 == found,
    ensures
        got == found,
{
    let i = choose|i: int| spec_first_index(entries, block_id, i) && entries[i].1 == got;
    let j = choose|j: int| spec_first_index(entries, block_id, j) && entries[j].1 == found;
    assert(i == j);
}

/// Removing an entry removes its block from the blocks held.
proof fn lemma_ids_remove<T>(entries: Seq<(usize, T)>, k: int)
    requires
        0 <= k < entries.len(),
        spec_ids(entries).no_duplicates(),
    ensures
        spec_ids(entries.remove(k)) == spec_ids(entries).remove(k),
        spec_ids(entries.remove(k)).no_duplicates(),
        forall|x: usize| #[trigger]
            spec_ids(entries.remove(k)).contains(x) ==> spec_ids(entries).contains(x),
{
    assert(spec_ids(entries.remove(k)) =~= spec_ids(entries).remove(k));
    let s = spec_ids(entries);
    let t = s.remove(k);
    assert forall|i: int, j: int| 0 <= i < t.len() && 0 <= j < t.len() && i != j implies t[i]
        != t[j] by {
        let a = if i < k { i } else { i + 1 };
        let b = if j < k { j } else { j + 1 };
        assert(s[a] != s[b]);
    }
    assert forall|x: usize| #[trigger] t.contains(x) implies s.contains(x) by {
        let i = choose|i: int| 0 <= i < t.len() && t[i] == x;
        if i < k {
            assert(s[i] == x);
        } else {
            assert(s[i + 1] == x);
        }
    }
}

/// Appending an entry for a block not yet held keeps the blocks distinct.
proof fn lemma_ids_push<T>(entries: Seq<(usize, T)>, e: (usize, T))
    requires
        spec_ids(entries).no_duplicates(),
        !spec_ids(entries).contains(e.0),
    ensures
        spec_ids(entries.push(e)) == spec_ids(entries).push(e.0),
        spec_ids(entries.push(e)).no_duplicates(),
        forall|j: int| 0 <= j < entries.len() ==> #[trigger] entries[j].0 != e.0,
{
    assert(spec_ids(entries.push(e)) =~= spec_ids(entries).push(e.0));
    let s = spec_ids(entries);
    let t = s.push(e.0);
    assert forall|i: int, j: int| 0 <= i < t.len() && 0 <= j < t.len() && i != j implies t[i]
        != t[j] by {
        if i == s.len() as int {
            assert(s[j] == t[j]);
        } else if j == s.len() as int {
            assert(s[i] == t[i]);
        }
    }
    assert forall|j: int| 0 <= j < entries.len() implies #[trigger] entries[j].0 != e.0 by {
        assert(s[j] == entries[j].0);
    }
}

/// Whether a block is wanted for reading or for writing.
#[derive(PartialEq, Copy, Clone, Debug)]
pub enum CacheMode {
    READ,
    WRITE,
}

} // verus!
