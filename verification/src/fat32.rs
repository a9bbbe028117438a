//! The volume-level interface: the parameter block as the volume layer sees
//! it, the block device it reads through, and open-file bookkeeping.
pub mod bpb;
pub mod device;
pub mod file;

use vstd::prelude::*;

verus! {

/// Size in bytes of the buffers the volume layer reads sectors into.
pub const BUFFER_SIZE: usize = 512;

} // verus!
