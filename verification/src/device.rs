//! The block device that caches and the FAT read from and write to.
use vstd::prelude::*;

verus! {

/// Trait for Block Device I/O
///
/// What a device holds is its own affair: a block may change between two
/// reads, by this library's writes or otherwise. So each call is stated
/// against predicates that the device defines: `reads_as(b, d)` holds when
/// `d` is what a read of block `b` gave, `written(b, d)` when `d` was handed
/// to a write of block `b`.
pub trait BlockDevice {
    /// `data` is what a read of block `block_id` gave.
    spec fn reads_as(&self, block_id: usize, data: Seq<u8>) -> bool;

    /// `data` was handed to a write of block `block_id`.
    spec fn written(&self, block_id: usize, data: Seq<u8>) -> bool;

    /// Fill `buf` with the contents of block `block_id`.
    fn read(&self, block_id: usize, buf: &mut [u8])
        ensures
            final(buf)@.len() == old(buf)@.len(),
            self.reads_as(block_id, final(buf)@),
    ;

    /// Store `buf` as the contents of block `block_id`.
    fn write(&self, block_id: usize, buf: &[u8])
        ensures
            self.written(block_id, buf@),
    ;
}

} // verus!
