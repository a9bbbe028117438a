//! Walking and updating the cluster chains of the File Allocation Table.
//!
//! The table is an array of little-endian 32-bit entries starting at byte
//! `fat_offset` of the device; entry `c` holds the cluster that follows `c`
//! in its chain, or the end-of-chain mark.
use vstd::prelude::*;
use std::sync::Arc;
use crate::device::BlockDevice;
use crate::sync::arc_clone;
use crate::utils::{le_u32, le_bytes_u32, read_le_u32};
use crate::BUFFER_SIZE;
use crate::bpb::BIOSParameterBlock;

verus! {

/// The entry value that ends a cluster chain.
pub const END_OF_CHAIN: u32 = 0x0FFFFFFF;

/// Entries held by one block of the table.
pub const ENTRIES_PER_BLOCK: u32 = 128;

/// Byte position of the entry of `cluster` inside its block.
pub open spec fn spec_entry_pos(cluster: u32) -> int {
    (cluster as int % 128) * 4
}

/// The block, counted from the start of the device, that holds the entry of
/// `cluster` in a table that starts at byte `fat_offset`.
pub open spec fn spec_entry_block(fat_offset: usize, cluster: u32) -> int {
    fat_offset as int / 512 + cluster as int / 128
}

/// What an entry value says of the next cluster: none at the end of a chain.
pub open spec fn spec_link(value: int) -> Option<u32> {
    if value == END_OF_CHAIN {
        None
    } else {
        Some(value as u32)
    }
}

/// The successor of `cluster` recorded in `block`, the table block that
/// holds its entry.
pub open spec fn spec_entry(block: Seq<u8>, cluster: u32) -> Option<u32> {
    spec_link(le_u32(block, spec_entry_pos(cluster)))
}

/// `block` with the entry of `cluster` set to the little-endian bytes of `value`.
pub open spec fn spec_set_entry(block: Seq<u8>, cluster: u32, value: u32) -> Seq<u8> {
    let p = spec_entry_pos(cluster);
    block.update(p, (value % 256) as u8).update(p + 1, ((value / 256) % 256) as u8).update(
        p + 2,
        ((value / 65536) % 256) as u8,
    ).update(p + 3, (value / 16777216) as u8)
}

/// Where a walk along a chain stands.
pub ghost struct FatState {
    pub fat_offset: usize,
    pub bytes_per_sector: u16,
    pub sectors_per_cluster: u8,
    pub start_cluster: u32,
    pub previous_cluster: u32,
    pub current_cluster: u32,
    pub next_cluster: Option<u32>,
    pub buffer: Seq<u8>,
}

/// `s` set to walk the chain that begins at `start_cluster`, from its start.
pub open spec fn spec_refresh(s: FatState, start_cluster: u32) -> FatState {
    FatState { current_cluster: 0, start_cluster, ..s }
}

/// `s` stepped back to the cluster visited before the current one.
pub open spec fn spec_previous(s: FatState) -> FatState {
    if s.current_cluster != 0 {
        FatState { next_cluster: Some(s.current_cluster), current_cluster: s.previous_cluster, ..s }
    } else {
        s
    }
}

/// The previous and current clusters after one more step along the chain,
/// or `None` at its end.
pub open spec fn spec_advance(s: FatState) -> Option<(u32, u32)> {
    if s.current_cluster == 0 {
        Some((s.previous_cluster, s.start_cluster))
    } else {
        match s.next_cluster {
            Some(n) => Some((s.current_cluster, n)),
            None => None,
        }
    }
}

/// `t` is where a step along the chain from `s` leads: the clusters move on
/// and the successor of the new current cluster is the one its entry in the
/// table block just read records. At the end of the chain nothing changes.
pub open spec fn spec_next_step(s: FatState, t: FatState) -> bool {
    match spec_advance(s) {
        Some((previous, current)) => {
            &&& t.previous_cluster == previous
            &&& t.current_cluster == current
            &&& t.next_cluster == spec_entry(t.buffer, current)
            &&& t.buffer.len() == BUFFER_SIZE
            &&& t.fat_offset == s.fat_offset
            &&& t.bytes_per_sector == s.bytes_per_sector
            &&& t.sectors_per_cluster == s.sectors_per_cluster
            &&& t.start_cluster == s.start_cluster
        },
        None => t == s,
    }
}

pub struct FAT<D: BlockDevice + ?Sized> {
    block_device: Arc<D>,
    fat_offset: usize,
    bytes_per_sector: u16,
    sectors_per_cluster: u8,
    start_cluster: u32,
    previous_cluster: u32,
    pub(crate) current_cluster: u32,
    next_cluster: Option<u32>,
    buffer: [u8; BUFFER_SIZE],
}

impl<D: BlockDevice + ?Sized> View for FAT<D> {
    type V = FatState;

    closed spec fn view(&self) -> FatState {
        FatState {
            fat_offset: self.fat_offset,
            bytes_per_sector: self.bytes_per_sector,
            sectors_per_cluster: self.sectors_per_cluster,
            start_cluster: self.start_cluster,
            previous_cluster: self.previous_cluster,
            current_cluster: self.current_cluster,
            next_cluster: self.next_cluster,
            buffer: self.buffer@,
        }
    }
}

/// The successor of `cluster` recorded in `block`, the table block that
/// holds its entry: `None` where the entry is the end-of-chain mark.
pub fn next_cluster_in(block: &[u8; BUFFER_SIZE], cluster: u32) -> (r: Option<u32>)
    ensures
        r == spec_entry(block@, cluster),
{
    let pos: usize = ((cluster % ENTRIES_PER_BLOCK) * 4) as usize;
    let value: u32 = read_le_u32(vstd::slice::slice_subrange(block.as_slice(), pos, pos + 4));
    if value == END_OF_CHAIN {
        None
    } else {
        Some(value)
    }
}

/// The value of entry number `j` of a table block.
pub open spec fn spec_slot(block: Seq<u8>, j: int) -> int {
    le_u32(block, j * 4)
}

/// The position of the first free (zero) entry of a table block, if any.
pub fn first_free_in(block: &[u8; BUFFER_SIZE]) -> (r: Option<u32>)
    ensures
        match r {
            Some(i) => {
                &&& i < ENTRIES_PER_BLOCK
                &&& spec_slot(block@, i as int) == 0
                &&& forall|j: int| 0 <= j < i ==> #[trigger] spec_slot(block@, j) != 0
            },
            None => forall|j: int| 0 <= j < ENTRIES_PER_BLOCK ==> #[trigger] spec_slot(block@, j) != 0,
        },
{
    let mut i: u32 = 0;
    while i < ENTRIES_PER_BLOCK
        invariant
            i <= ENTRIES_PER_BLOCK,
            forall|j: int| 0 <= j < i ==> #[trigger] spec_slot(block@, j) != 0,
        decreases ENTRIES_PER_BLOCK - i,
    {
        let pos: usize = (i * 4) as usize;
        let value: u32 = read_le_u32(vstd::slice::slice_subrange(block.as_slice(), pos, pos + 4));
        if value == 0 {
            return Some(i);
        }
        i = i + 1;
    }
    None
}

/// `i` is the position of the first free entry of `block`, or 128 when the
/// block has none.
pub open spec fn spec_first_free(block: Seq<u8>, i: int) -> bool {
    &&& 0 <= i <= 128
    &&& forall|j: int| 0 <= j < i ==> #[trigger] spec_slot(block, j) != 0
    &&& i < 128 ==> spec_slot(block, i) == 0
}

/// Block `base + j` of `dev` was read and held no free entry.
pub open spec fn spec_read_full<D: BlockDevice + ?Sized>(dev: Arc<D>, base: int, j: int) -> bool {
    exists|b: Seq<u8>|
        b.len() == BUFFER_SIZE && #[trigger] dev.reads_as((base + j) as usize, b) && spec_first_free(
            b,
            128,
        )
}

/// Blocks `base` up to, not including, `base + k` of `dev` were read and
/// none held a free entry.
pub open spec fn spec_scanned_full<D: BlockDevice + ?Sized>(dev: Arc<D>, base: int, k: int) -> bool {
    forall|j: int| 0 <= j < k ==> #[trigger] spec_read_full(dev, base, j)
}

/// The block at which the search for a free cluster starts.
pub open spec fn spec_scan_base(s: FatState) -> int {
    s.fat_offset as int / (s.bytes_per_sector as int * s.sectors_per_cluster as int)
}

/// The entry of a cluster lies where its four bytes lie in the table: for a
/// table that starts on a block boundary, the block `spec_entry_block` and the
/// position `spec_entry_pos` in it locate byte `fat_offset + 4 * cluster` of
/// the device, and the position leaves room for all four bytes in the block.
pub proof fn lemma_entry_location(fat_offset: usize, cluster: u32)
    requires
        fat_offset % 512 == 0,
    ensures
        spec_entry_block(fat_offset, cluster) * 512 + spec_entry_pos(cluster) == fat_offset + 4
            * cluster,
        0 <= spec_entry_pos(cluster),
        spec_entry_pos(cluster) + 4 <= 512,
        spec_entry_pos(cluster) % 4 == 0,
{
    let q = fat_offset as int / 512;
    let a = cluster as int / 128;
    let b = cluster as int % 128;
    assert(fat_offset == 512 * q);
    assert(cluster == 128 * a + b);
    assert((q + a) * 512 + b * 4 == 512 * q + 4 * (128 * a + b)) by (nonlinear_arith);
}

/// The block at which the search for a free cluster starts is the one that
/// `fat_offset` falls in when the device is counted in clusters of
/// `bytes_per_sector * sectors_per_cluster` bytes.
pub proof fn lemma_scan_base(s: FatState)
    requires
        s.bytes_per_sector != 0,
        s.sectors_per_cluster != 0,
    ensures
        0 <= spec_scan_base(s),
        spec_scan_base(s) * (s.bytes_per_sector * s.sectors_per_cluster) <= s.fat_offset,
        s.fat_offset < (spec_scan_base(s) + 1) * (s.bytes_per_sector * s.sectors_per_cluster),
{
    let u = s.bytes_per_sector as int * s.sectors_per_cluster as int;
    assert(u > 0) by (nonlinear_arith)
        requires
            u == s.bytes_per_sector as int * s.sectors_per_cluster as int,
            s.bytes_per_sector != 0,
            s.sectors_per_cluster != 0,
    ;
    let q = s.fat_offset as int / u;
    let r = s.fat_offset as int % u;
    assert(s.fat_offset as int == q * u + r && 0 <= r < u) by (nonlinear_arith)
        requires
            u > 0,
            q == s.fat_offset as int / u,
            r == s.fat_offset as int % u,
    ;
    assert(q >= 0) by (nonlinear_arith)
        requires
            u > 0,
            q == s.fat_offset as int / u,
            s.fat_offset >= 0,
    ;
    assert((q + 1) * u == q * u + u) by (nonlinear_arith);
}

/// Set the entry of `cluster` in `block`, the table block that holds it, to
/// `value`, stored little-endian; every other byte stays as it was.
pub fn set_entry(block: &mut [u8; BUFFER_SIZE], cluster: u32, value: u32)
    ensures
        final(block)@ == spec_set_entry(old(block)@, cluster, value),
{
    let pos: usize = ((cluster % ENTRIES_PER_BLOCK) * 4) as usize;
    let bytes: [u8; 4] = le_bytes_u32(value);
    assert(bytes@[0] == value % 256 && bytes@[1] == (value / 256) % 256 && bytes@[2] == (value
        / 65536) % 256 && bytes@[3] == value / 16777216) by (nonlinear_arith)
        requires
            le_u32(bytes@, 0) == value,
            bytes@.len() == 4,
            0 <= bytes@[0] < 256,
            0 <= bytes@[1] < 256,
            0 <= bytes@[2] < 256,
            0 <= bytes@[3] < 256,
    ;
    block[pos] = bytes[0];
    block[pos + 1] = bytes[1];
    block[pos + 2] = bytes[2];
    block[pos + 3] = bytes[3];
}

/// Writing an entry and reading it back gives the value written (or the end
/// of the chain, for the end-of-chain mark), and leaves the entries of the
/// other clusters of the block as they were.
pub proof fn lemma_entry_read_after_write(block: Seq<u8>, cluster: u32, value: u32, other: u32)
    requires
        block.len() == BUFFER_SIZE,
        other % 128 != cluster % 128,
    ensures
        spec_entry(spec_set_entry(block, cluster, value), cluster) == spec_link(value as int),
        spec_entry(spec_set_entry(block, cluster, value), other) == spec_entry(block, other),
{
    let p = spec_entry_pos(cluster);
    let s = spec_set_entry(block, cluster, value);
    assert(s[p] + 256 * s[p + 1] + 65536 * s[p + 2] + 16777216 * s[p + 3] == value) by (
    nonlinear_arith)
        requires
            s[p] == value % 256,
            s[p + 1] == (value / 256) % 256,
            s[p + 2] == (value / 65536) % 256,
            s[p + 3] == value / 16777216,
    ;
}

/// Stepping back right after a step along the chain returns to the cluster
/// the step left, and again knows the cluster that follows it. (A step onto
/// cluster 0 cannot be stepped back from: 0 stands for "not started".)
pub proof fn lemma_previous_undoes_next(s: FatState, t: FatState)
    requires
        s.current_cluster != 0,
        s.next_cluster is Some,
        s.next_cluster != Some(0u32),
        spec_next_step(s, t),
    ensures
        spec_previous(t).current_cluster == s.current_cluster,
        spec_previous(t).next_cluster == s.next_cluster,
        spec_previous(t).previous_cluster == s.current_cluster,
{
}

/// `ts` are the states of a walk, each reached from the one before by a call
/// of `next`.
pub open spec fn spec_walk(ts: Seq<FatState>) -> bool {
    forall|i: int| 0 <= i < ts.len() - 1 ==> #[trigger] spec_walk_step(ts, i)
}

/// State `i + 1` of `ts` is reached from state `i` by a call of `next`.
pub open spec fn spec_walk_step(ts: Seq<FatState>, i: int) -> bool {
    spec_next_step(ts[i], ts[i + 1])
}

/// A walk from its start follows the chain: the first step lands on the start
/// cluster; every later step lands on the successor that the table block read
/// for the cluster before records; at the end of the chain the walk stays
/// where it is. (Cluster 0 stands for "not started", so the chain is taken to
/// pass through nonzero clusters.)
pub proof fn lemma_walk_follows_chain(ts: Seq<FatState>)
    requires
        ts.len() >= 2,
        ts[0].current_cluster == 0,
        spec_walk(ts),
        forall|i: int| 1 <= i < ts.len() ==> #[trigger] ts[i].current_cluster != 0,
    ensures
        ts[1].current_cluster == ts[0].start_cluster,
        forall|i: int|
            1 <= i < ts.len() ==> #[trigger] ts[i].next_cluster == spec_entry(
                ts[i].buffer,
                ts[i].current_cluster,
            ),
        forall|i: int|
            1 <= i < ts.len() - 1 ==> match #[trigger] ts[i].next_cluster {
                Some(n) => ts[i + 1].current_cluster == n && ts[i + 1].previous_cluster
                    == ts[i].current_cluster,
                None => ts[i + 1] == ts[i],
            },
    decreases ts.len(),
{
    assert(spec_walk_step(ts, 0));
    if ts.len() > 2 {
        let front = ts.drop_last();
        assert forall|i: int| 0 <= i < front.len() - 1 implies #[trigger] spec_walk_step(
            front,
            i,
        ) by {
            assert(spec_walk_step(ts, i));
            assert(front[i] == ts[i] && front[i + 1] == ts[i + 1]);
        }
        assert forall|i: int| 1 <= i < front.len() implies #[trigger] front[i].current_cluster
            != 0 by {
            assert(ts[i].current_cluster != 0);
        }
        lemma_walk_follows_chain(front);
        let l = ts.len() - 1;
        assert(spec_walk_step(ts, l - 1));
        assert(front[l - 1] == ts[l - 1]);
        assert(ts[l - 1].current_cluster != 0);
        assert forall|i: int|
            1 <= i < ts.len() implies #[trigger] ts[i].next_cluster == spec_entry(
            ts[i].buffer,
            ts[i].current_cluster,
        ) by {
            if i < l {
                assert(front[i] == ts[i]);
            }
        }
        assert forall|i: int|
            1 <= i < ts.len() - 1 implies match #[trigger] ts[i].next_cluster {
            Some(n) => ts[i + 1].current_cluster == n && ts[i + 1].previous_cluster
                == ts[i].current_cluster,
            None => ts[i + 1] == ts[i],
        } by {
            assert(spec_walk_step(ts, i));
            assert(ts[i].current_cluster != 0);
        }
    }
}

/// Step `i` of the walk `ts`, where it moved on, read the table block that
/// holds the entry of the cluster it moved to from `dev`.
pub open spec fn spec_step_read<D: BlockDevice + ?Sized>(dev: Arc<D>, ts: Seq<FatState>, i: int) -> bool {
    spec_advance(ts[i]) is Some ==> dev.reads_as(
        spec_entry_block(ts[i].fat_offset, ts[i + 1].current_cluster) as usize,
        ts[i + 1].buffer,
    )
}

/// Every read of `dev` gives the blocks of the fixed table `table`.
pub open spec fn spec_reads_fixed<D: BlockDevice + ?Sized>(dev: Arc<D>, table: spec_fn(usize) -> Seq<u8>) -> bool {
    forall|k: usize, b: Seq<u8>| #[trigger] dev.reads_as(k, b) ==> b == table(k)
}

/// The successor of `cluster` that the fixed table `table` records for a FAT
/// starting at byte `fat_offset`.
pub open spec fn spec_table_entry(table: spec_fn(usize) -> Seq<u8>, fat_offset: usize, cluster: u32) -> Option<u32> {
    spec_entry(table(spec_entry_block(fat_offset, cluster) as usize), cluster)
}

/// In a walk whose reads give a fixed table, every state after the first
/// holds the table block of its current cluster.
proof fn lemma_walk_buffers<D: BlockDevice + ?Sized>(
    dev: Arc<D>,
    table: spec_fn(usize) -> Seq<u8>,
    ts: Seq<FatState>,
    i: int,
)
    requires
        1 <= i < ts.len(),
        ts[0].current_cluster == 0,
        spec_walk(ts),
        forall|j: int| 0 <= j < ts.len() - 1 ==> #[trigger] spec_step_read(dev, ts, j),
        spec_reads_fixed(dev, table),
    ensures
        ts[i].buffer == table(spec_entry_block(ts[i].fat_offset, ts[i].current_cluster) as usize),
    decreases i,
{
    assert(spec_walk_step(ts, i - 1));
    assert(spec_step_read(dev, ts, i - 1));
    if spec_advance(ts[i - 1]) is Some {
        assert(dev.reads_as(
            spec_entry_block(ts[i - 1].fat_offset, ts[i].current_cluster) as usize,
            ts[i].buffer,
        ));
    } else {
        lemma_walk_buffers(dev, table, ts, i - 1);
    }
}

/// A walk over a device whose reads give a fixed table follows the chain the
/// table records: the first step lands on the start cluster, each later step
/// on the successor that the table records for the cluster before, and at
/// the end of the chain the walk stays where it is.
pub proof fn lemma_walk_over_fixed_table<D: BlockDevice + ?Sized>(
    dev: Arc<D>,
    table: spec_fn(usize) -> Seq<u8>,
    ts: Seq<FatState>,
)
    requires
        ts.len() >= 2,
        ts[0].current_cluster == 0,
        spec_walk(ts),
        forall|i: int| 1 <= i < ts.len() ==> #[trigger] ts[i].current_cluster != 0,
        forall|j: int| 0 <= j < ts.len() - 1 ==> #[trigger] spec_step_read(dev, ts, j),
        spec_reads_fixed(dev, table),
    ensures
        ts[1].current_cluster == ts[0].start_cluster,
        forall|i: int|
            1 <= i < ts.len() - 1 ==> match #[trigger] spec_table_entry(
                table,
                ts[i].fat_offset,
                ts[i].current_cluster,
            ) {
                Some(n) => ts[i + 1].current_cluster == n,
                None => ts[i + 1] == ts[i],
            },
{
    lemma_walk_follows_chain(ts);
    assert forall|i: int| 1 <= i < ts.len() - 1 implies match #[trigger] spec_table_entry(
        table,
        ts[i].fat_offset,
        ts[i].current_cluster,
    ) {
        Some(n) => ts[i + 1].current_cluster == n,
        None => ts[i + 1] == ts[i],
    } by {
        lemma_walk_buffers(dev, table, ts, i);
        assert(ts[i].next_cluster == spec_entry(ts[i].buffer, ts[i].current_cluster));
    }
}

/// A step of the walk that lands on `cluster` after `write(cluster, value)`,
/// on a device whose reads of that table block give back what the write
/// handed it, finds `value` as the successor (or the end of the chain, for
/// the end-of-chain mark).
pub proof fn lemma_next_sees_write<D: BlockDevice + ?Sized>(
    dev: Arc<D>,
    cluster: u32,
    value: u32,
    read_before: Seq<u8>,
    s: FatState,
    t: FatState,
)
    requires
        read_before.len() == BUFFER_SIZE,
        dev.written(
            spec_entry_block(s.fat_offset, cluster) as usize,
            spec_set_entry(read_before, cluster, value),
        ),
        forall|d: Seq<u8>|
            #[trigger] dev.reads_as(spec_entry_block(s.fat_offset, cluster) as usize, d) ==> d
                == spec_set_entry(read_before, cluster, value),
        spec_next_step(s, t),
        spec_advance(s) is Some,
        t.current_cluster == cluster,
        dev.reads_as(spec_entry_block(s.fat_offset, t.current_cluster) as usize, t.buffer),
    ensures
        t.next_cluster == spec_link(value as int),
{
    lemma_entry_read_after_write(read_before, cluster, value, ((cluster + 1) % 128) as u32);
}

/// After a walk is set to a chain, its first step lands on the chain's start.
pub proof fn lemma_refresh_then_next_starts(s: FatState, start_cluster: u32, t: FatState)
    requires
        spec_next_step(spec_refresh(s, start_cluster), t),
    ensures
        t.current_cluster == start_cluster,
        t.start_cluster == start_cluster,
{
}

impl<D: BlockDevice + ?Sized> FAT<D> {
    /// The device the table lives on.
    pub closed spec fn device(&self) -> Arc<D> {
        self.block_device
    }

    pub fn new(cluster: u32, fat_offset: usize, block_device: Arc<D>) -> (r: Self)
        ensures
            r@ == (FatState {
                fat_offset,
                bytes_per_sector: 0,
                sectors_per_cluster: 1,
                start_cluster: cluster,
                previous_cluster: 0,
                current_cluster: 0,
                next_cluster: None,
                buffer: Seq::new(512, |i: int| 0u8),
            }),
            r.device() == block_device,
    {
        let r = Self {
            block_device,
            fat_offset,
            bytes_per_sector: 0,
            sectors_per_cluster: 1,
            start_cluster: cluster,
            previous_cluster: 0,
            current_cluster: 0,
            next_cluster: None,
            buffer: [0; BUFFER_SIZE],
        };
        assert(r.buffer@ =~= Seq::new(512, |i: int| 0u8));
        r
    }

    /// Take the sector size and the cluster size from the parameter block.
    pub fn set_layout(&mut self, bpb: &BIOSParameterBlock)
        ensures
            final(self)@ == (FatState {
                bytes_per_sector: bpb.bytes_per_sector,
                sectors_per_cluster: bpb.sectors_per_cluster,
                ..old(self)@
            }),
            final(self).device() == old(self).device(),
    {
        self.bytes_per_sector = bpb.bytes_per_sector;
        self.sectors_per_cluster = bpb.sectors_per_cluster;
    }

    /// The block of the device that holds the entry of `cluster`.
    pub fn entry_block(&self, cluster: u32) -> (r: usize)
        ensures
            r == spec_entry_block(self@.fat_offset, cluster),
    {
        self.fat_offset / BUFFER_SIZE + (cluster / ENTRIES_PER_BLOCK) as usize
    }

    /// Find a free cluster: scan the table block by block, starting at block
    /// `fat_offset / (bytes_per_sector * sectors_per_cluster)`, and count the
    /// entries passed until the first zero entry; that count is the result.
    /// `None` when the count would pass `u32::MAX` or the block number would
    /// pass `usize::MAX` before a free entry is found.
    #[verifier::spinoff_prover]
    pub fn blank_cluster(&mut self) -> (r: Option<u32>)
        requires
            old(self)@.bytes_per_sector != 0,
            old(self)@.sectors_per_cluster != 0,
        ensures
            final(self)@ == old(self)@,
            final(self).device() == old(self).device(),
            match r {
                Some(c) => {
                    &&& spec_scanned_full(old(self).device(), spec_scan_base(old(self)@), c as int / 128)
                    &&& exists|b: Seq<u8>|
                        {
                            &&& b.len() == BUFFER_SIZE
                            &&& #[trigger] old(self).device().reads_as(
                                (spec_scan_base(old(self)@) + c as int / 128) as usize,
                                b,
                            )
                            &&& spec_first_free(b, c as int % 128)
                        }
                },
                None => exists|k: int|
                    {
                        &&& 0 <= k
                        &&& #[trigger] spec_scanned_full(
                            old(self).device(),
                            spec_scan_base(old(self)@),
                            k,
                        )
                        &&& (spec_scan_base(old(self)@) + k > usize::MAX || exists|b: Seq<u8>, i: int|
                            {
                                &&& b.len() == BUFFER_SIZE
                                &&& #[trigger] old(self).device().reads_as(
                                    (spec_scan_base(old(self)@) + k) as usize,
                                    b,
                                )
                                &&& #[trigger] spec_first_free(b, i)
                                &&& 128 * k + i > u32::MAX
                            })
                    },
            },
    {
        let mut cluster: u32 = 0;
        let mut count_block_id: usize = 0;
        proof {
            crate::bpb::lemma_mul_bounded(
                self.bytes_per_sector as int,
                self.sectors_per_cluster as int,
                u16::MAX as int,
                u8::MAX as int,
            );
            assert(self.bytes_per_sector * self.sectors_per_cluster != 0) by (nonlinear_arith)
                requires
                    self.bytes_per_sector != 0,
                    self.sectors_per_cluster != 0,
            ;
        }
        let unit: usize = self.bytes_per_sector as usize * self.sectors_per_cluster as usize;
        let base_block_id: usize = self.fat_offset / unit;
        let ghost dev: Arc<D> = self.block_device;
        let ghost base: int = spec_scan_base(self@);
        assert(base == base_block_id);
        loop
            invariant
                cluster as int == count_block_id as int * 128,
                dev == self.block_device,
                base == base_block_id,
                self@ == old(self)@,
                self.block_device == old(self).block_device,
                base == spec_scan_base(old(self)@),
                spec_scanned_full(dev, base, count_block_id as int),
            decreases u32::MAX - cluster,
        {
            let block_id: usize = match base_block_id.checked_add(count_block_id) {
                Some(id) => id,
                None => {
                    assert(spec_scanned_full(
                        old(self).device(),
                        spec_scan_base(old(self)@),
                        count_block_id as int,
                    ));
                    return None;
                },
            };
            let mut block: [u8; BUFFER_SIZE] = [0; BUFFER_SIZE];
            self.block_device.read(block_id, &mut block);
            assert(dev.reads_as((base + count_block_id) as usize, block@));
            match first_free_in(&block) {
                Some(i) => {
                    proof {
                        assert(spec_first_free(block@, i as int));
                        let c = cluster + i;
                        assert(c / 128 == count_block_id && c % 128 == i) by (nonlinear_arith)
                            requires
                                c == count_block_id * 128 + i,
                                0 <= i < 128,
                        ;
                    }
                    let found: Option<u32> = cluster.checked_add(i);
                    proof {
                        if found is None {
                            assert(spec_scanned_full(
                                old(self).device(),
                                spec_scan_base(old(self)@),
                                count_block_id as int,
                            ));
                            assert(old(self).device().reads_as(
                                (spec_scan_base(old(self)@) + count_block_id) as usize,
                                block@,
                            ));
                        }
                    }
                    return found;
                },
                None => {
                    assert(spec_first_free(block@, 128));
                    assert(spec_read_full(dev, base, count_block_id as int));
                    match cluster.checked_add(ENTRIES_PER_BLOCK) {
                        Some(c) => {
                            cluster = c;
                        },
                        None => {
                            assert(spec_scanned_full(
                                old(self).device(),
                                spec_scan_base(old(self)@),
                                count_block_id as int,
                            ));
                            assert(old(self).device().reads_as(
                                (spec_scan_base(old(self)@) + count_block_id) as usize,
                                block@,
                            ));
                            return None;
                        },
                    }
                },
            }
            count_block_id = count_block_id + 1;
        }
    }

    /// Set the table entry of `cluster` to `value`: read the block that holds
    /// it, change the four bytes of the entry, write the block back.
    pub fn write(&mut self, cluster: u32, value: u32)
        ensures
            final(self)@ == old(self)@,
            final(self).device() == old(self).device(),
            exists|b: Seq<u8>|
                {
                    &&& b.len() == BUFFER_SIZE
                    &&& #[trigger] old(self).device().reads_as(
                        spec_entry_block(old(self)@.fat_offset, cluster) as usize,
                        b,
                    )
                    &&& old(self).device().written(
                        spec_entry_block(old(self)@.fat_offset, cluster) as usize,
                        spec_set_entry(b, cluster, value),
                    )
                },
    {
        let block_id: usize = self.entry_block(cluster);
        let mut block: [u8; BUFFER_SIZE] = [0; BUFFER_SIZE];
        self.block_device.read(block_id, &mut block);
        let ghost read_back: Seq<u8> = block@;
        set_entry(&mut block, cluster, value);
        self.block_device.write(block_id, &block);
        assert(old(self).device().reads_as(
            spec_entry_block(old(self)@.fat_offset, cluster) as usize,
            read_back,
        ));
    }

    pub fn refresh(&mut self, start_cluster: u32)
        ensures
            final(self)@ == spec_refresh(old(self)@, start_cluster),
            final(self).device() == old(self).device(),
    {
        self.current_cluster = 0;
        self.start_cluster = start_cluster;
    }

    pub fn previous(&mut self)
        ensures
            final(self)@ == spec_previous(old(self)@),
            final(self).device() == old(self).device(),
    {
        if self.current_cluster != 0 {
            self.next_cluster = Some(self.current_cluster);
            self.current_cluster = self.previous_cluster;
        }
    }

    pub fn next_is_none(&self) -> (r: bool)
        ensures
            r == (self@.next_cluster is None),
    {
        self.next_cluster.is_none()
    }

    pub fn current_cluster_usize(&self) -> (r: usize)
        ensures
            r == self@.current_cluster,
    {
        self.current_cluster as usize
    }

    /// Step to the next cluster of the chain: the start cluster on the first
    /// call, then the successor found on the step before. The table entry of
    /// the new current cluster is read from the device, and what it says of
    /// the successor is kept for the next step. At the end of the chain
    /// nothing changes and `None` is returned; otherwise a copy of the walk.
    pub fn next(&mut self) -> (r: Option<Self>)
        ensures
            spec_next_step(old(self)@, final(self)@),
            r is None <==> spec_advance(old(self)@) is None,
            r matches Some(f) ==> f@ == final(self)@ && f.device() == old(self).device(),
            final(self).device() == old(self).device(),
            spec_advance(old(self)@) is Some ==> old(self).device().reads_as(
                spec_entry_block(old(self)@.fat_offset, final(self)@.current_cluster) as usize,
                final(self)@.buffer,
            ),
    {
        if self.current_cluster == 0 {
            self.current_cluster = self.start_cluster;
        } else {
            match self.next_cluster {
                Some(next) => {
                    self.previous_cluster = self.current_cluster;
                    self.current_cluster = next;
                },
                None => {
                    return None;
                },
            }
        }
        let block_id: usize = self.entry_block(self.current_cluster);
        self.block_device.read(block_id, &mut self.buffer);
        let next_cluster: Option<u32> = next_cluster_in(&self.buffer, self.current_cluster);
        self.next_cluster = next_cluster;
        Some(
            Self {
                next_cluster,
                block_device: arc_clone(&self.block_device),
                fat_offset: self.fat_offset,
                bytes_per_sector: self.bytes_per_sector,
                sectors_per_cluster: self.sectors_per_cluster,
                start_cluster: self.start_cluster,
                previous_cluster: self.previous_cluster,
                current_cluster: self.current_cluster,
                buffer: self.buffer,
            },
        )
    }
}

} // verus!
