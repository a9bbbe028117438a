//! The BIOS Parameter Block as the volume layer stores it, with the layout
//! arithmetic built on it.
use vstd::prelude::*;
use crate::bpb::{lemma_mul_bounded, spec_cluster_sector, spec_data_sectors, spec_data_sectors_defined};

verus! {

/// Define BIOS Parameters
#[derive(Debug, Copy, Clone)]
pub struct BIOSParameterBlock {
    pub byte_per_sector: u16,
    pub sector_per_cluster: u8,
    pub reserved_sector: u16,
    pub num_fat: u8,
    pub total_sector: u32,
    pub sector_per_fat: u32,
    pub root_cluster: u32,
    pub id: u32,
    pub volume_label: [u8; 11],
    pub file_system: [u8; 8],
}

impl BIOSParameterBlock {
    /// The byte offset of the first sector of `cluster`.
    pub open spec fn spec_offset(&self, cluster: u32) -> int {
        spec_cluster_sector(
            self.reserved_sector as int,
            self.num_fat as int,
            self.sector_per_fat as int,
            self.sector_per_cluster as int,
            cluster as int,
        ) * self.byte_per_sector
    }

    /// `offset(cluster)` is defined: the cluster is a data cluster and
    /// neither the sector number nor the byte offset exceed `usize`.
    pub open spec fn offset_defined(&self, cluster: u32) -> bool {
        &&& cluster >= 2
        &&& spec_cluster_sector(
            self.reserved_sector as int,
            self.num_fat as int,
            self.sector_per_fat as int,
            self.sector_per_cluster as int,
            cluster as int,
        ) <= usize::MAX
        &&& self.spec_offset(cluster) <= usize::MAX
    }

    /// The data sector count of this block.
    pub open spec fn spec_data_sectors(&self) -> int {
        spec_data_sectors(
            self.total_sector as int,
            self.reserved_sector as int,
            self.num_fat as int,
            self.sector_per_fat as int,
            self.root_cluster as int,
        )
    }

    /// `data_sectors()` is defined for this block.
    pub open spec fn data_sectors_defined(&self) -> bool {
        spec_data_sectors_defined(
            self.total_sector as int,
            self.reserved_sector as int,
            self.num_fat as int,
            self.sector_per_fat as int,
            self.root_cluster as int,
        )
    }

    /// Uninit
    pub fn uninit() -> (r: Self)
        ensures
            r.byte_per_sector == 0,
            r.sector_per_cluster == 0,
            r.reserved_sector == 0,
            r.num_fat == 0,
            r.total_sector == 0,
            r.sector_per_fat == 0,
            r.root_cluster == 0,
            r.id == 0,
            forall|i: int| 0 <= i < 11 ==> r.volume_label@[i] == 0,
            forall|i: int| 0 <= i < 8 ==> r.file_system@[i] == 0,
    {
        Self {
            byte_per_sector: 0,
            sector_per_cluster: 0,
            reserved_sector: 0,
            num_fat: 0,
            total_sector: 0,
            sector_per_fat: 0,
            root_cluster: 0,
            id: 0,
            volume_label: [0; 11],
            file_system: [0; 8],
        }
    }

    /// Get the first sector offset bytes of the cluster from the cluster number
    pub fn offset(&self, cluster: u32) -> (r: usize)
        requires
            self.offset_defined(cluster),
        ensures
            r == self.spec_offset(cluster),
    {
        let reserved: usize = self.reserved_sector as usize;
        let num_fat: usize = self.num_fat as usize;
        let per_fat: usize = self.sector_per_fat as usize;
        let per_cluster: usize = self.sector_per_cluster as usize;
        let index: usize = cluster as usize - 2;
        let bytes: usize = self.byte_per_sector as usize;
        proof {
            lemma_mul_bounded(num_fat as int, per_fat as int, num_fat as int, per_fat as int);
            lemma_mul_bounded(index as int, per_cluster as int, index as int, per_cluster as int);
        }
        let fats: usize = num_fat * per_fat;
        let clusters: usize = index * per_cluster;
        let sector: usize = reserved + fats + clusters;
        sector * bytes
    }

    /// Get FAT1 Offset
    pub fn fat1(&self) -> (r: usize)
        ensures
            r == self.reserved_sector * self.byte_per_sector,
    {
        proof {
            lemma_mul_bounded(
                self.reserved_sector as int,
                self.byte_per_sector as int,
                u16::MAX as int,
                u16::MAX as int,
            );
        }
        (self.reserved_sector as usize) * (self.byte_per_sector as usize)
    }

    /// Get sector_per_cluster_usize as usize value
    pub fn sector_per_cluster_usize(&self) -> (r: usize)
        ensures
            r == self.sector_per_cluster,
    {
        self.sector_per_cluster as usize
    }

    /// Get the numbers of data clusters
    pub fn data_sectors(&self) -> (r: usize)
        requires
            self.data_sectors_defined(),
        ensures
            r == self.spec_data_sectors(),
    {
        let fats: u32 = self.num_fat as u32 * self.sector_per_fat;
        (self.total_sector - (self.reserved_sector as u32 + fats + self.root_cluster)) as usize
    }

    /// Get the count
    pub fn count_of_clusters(&self) -> (r: usize)
        requires
            self.data_sectors_defined(),
            self.sector_per_cluster != 0,
        ensures
            r == self.spec_data_sectors() / (self.sector_per_cluster as int),
    {
        self.data_sectors() / self.sector_per_cluster as usize
    }
}

} // verus!
