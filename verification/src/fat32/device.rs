//! The block device the volume layer reads and writes.
use vstd::prelude::*;

verus! {

/// A device addressed by byte position, moving whole blocks.
pub trait BlockDevice: Send + Send + 'static {
    /// Read `number_of_block` blocks starting at `addr` into `buf`.
    fn read(&self, addr: usize, buf: &mut [u8], number_of_block: usize);

    /// Write `number_of_block` blocks of `buf` starting at `addr`.
    fn write(&self, addr: usize, buf: &[u8], number_of_block: usize);
}

} // verus!
