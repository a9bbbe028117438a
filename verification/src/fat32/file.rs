//! Bookkeeping for an open file.
use vstd::prelude::*;
use std::sync::Arc;
use super::device::BlockDevice;

verus! {

/// An open file: the device it lives on, the clusters it occupies, its size,
/// the current position and the address of its directory entry.
pub struct FileEnrty<D: BlockDevice + ?Sized> {
    device: Arc<D>,
    clusters: Vec<usize>,
    size: usize,
    seek_at: usize,
    addr: usize,
}

} // verus!
