//! A FAT32 file-system layer: boot-sector parsing, cluster-chain walking
//! and a small block cache, each operation stated against a model.
pub mod block_cache;
pub mod bpb;
pub mod device;
pub mod fat;
pub mod fat32;
pub mod sync;
pub mod utils;

pub use device::BlockDevice;

use vstd::prelude::*;

verus! {

/// Size in bytes of a block of the device.
pub const BLOCK_SZ: usize = 512;

/// Size in bytes of the buffer a FAT block is read into.
pub const BUFFER_SIZE: usize = 512;

} // verus!
