//! The BIOS Parameter Block of a FAT32 volume: where each field lies in the
//! boot sector, how it is decoded, and the layout arithmetic built on it.
use vstd::prelude::*;
use crate::utils::{le_u16, le_u32, read_le_u16, read_le_u32};

verus! {

/// The byte positions, within the boot sector, of the fields of the
/// BIOS Parameter Block.
pub enum BPBOffset {
    BytesPerSector,
    SectorsPerCluster,
    ReservedSectorCount,
    FatNums,
    TotalSector32,
    FatSize32,
    RootSector,
    VolumeID,
    VolumeLabel,
    FileSystemType,
}

/// Length in bytes of the volume label.
pub const VOLUME_LABEL_LEN: usize = 11;

/// Length in bytes of the file-system type string.
pub const FILE_SYSTEM_LEN: usize = 8;

/// Smallest boot sector from which every field of the block can be read.
pub const BPB_MIN_LEN: usize = 90;

impl BPBOffset {
    /// The byte position of this field in the boot sector.
    pub open spec fn spec_position(&self) -> nat {
        match self {
            BPBOffset::BytesPerSector => 11,
            BPBOffset::SectorsPerCluster => 13,
            BPBOffset::ReservedSectorCount => 14,
            BPBOffset::FatNums => 16,
            BPBOffset::TotalSector32 => 32,
            BPBOffset::FatSize32 => 36,
            BPBOffset::RootSector => 44,
            BPBOffset::VolumeID => 67,
            BPBOffset::VolumeLabel => 71,
            BPBOffset::FileSystemType => 82,
        }
    }

    /// The byte position of this field in the boot sector.
    pub fn position(&self) -> (r: usize)
        ensures
            r == self.spec_position(),
    {
        match self {
            BPBOffset::BytesPerSector => 11,
            BPBOffset::SectorsPerCluster => 13,
            BPBOffset::ReservedSectorCount => 14,
            BPBOffset::FatNums => 16,
            BPBOffset::TotalSector32 => 32,
            BPBOffset::FatSize32 => 36,
            BPBOffset::RootSector => 44,
            BPBOffset::VolumeID => 67,
            BPBOffset::VolumeLabel => 71,
            BPBOffset::FileSystemType => 82,
        }
    }

    /// The bytes of `sector` from `start` up to, not including, `end`.
    pub fn split(start: usize, end: usize, sector: &[u8]) -> (r: &[u8])
        requires
            start <= end <= sector@.len(),
        ensures
            r@ == sector@.subrange(start as int, end as int),
    {
        vstd::slice::slice_subrange(sector, start, end)
    }

    /// Get bytes_per_sector
    pub fn bytes_per_sector(sector: &[u8]) -> (r: u16)
        requires
            sector@.len() >= 13,
        ensures
            r == le_u16(sector@, 11),
    {
        read_le_u16(
            Self::split(
                BPBOffset::BytesPerSector.position(),
                BPBOffset::SectorsPerCluster.position(),
                sector,
            ),
        )
    }

    /// Get sectors_per_cluster
    pub fn sectors_per_cluster(sector: &[u8]) -> (r: u8)
        requires
            sector@.len() >= 14,
        ensures
            r == sector@[13],
    {
        let start: usize = BPBOffset::SectorsPerCluster.position();
        Self::split(start, start + 1, sector)[0]
    }

    /// Get reversed_sector_count
    pub fn reversed_sector_count(sector: &[u8]) -> (r: u16)
        requires
            sector@.len() >= 16,
        ensures
            r == le_u16(sector@, 14),
    {
        let start: usize = BPBOffset::ReservedSectorCount.position();
        read_le_u16(Self::split(start, start + 2, sector))
    }

    /// Get fat_nums
    pub fn fat_nums(sector: &[u8]) -> (r: u8)
        requires
            sector@.len() >= 17,
        ensures
            r == sector@[16],
    {
        let start: usize = BPBOffset::FatNums.position();
        Self::split(start, start + 1, sector)[0]
    }

    /// Get the total sector
    pub fn total_sector(sector: &[u8]) -> (r: u32)
        requires
            sector@.len() >= 36,
        ensures
            r == le_u32(sector@, 32),
    {
        let start: usize = BPBOffset::TotalSector32.position();
        read_le_u32(Self::split(start, start + 4, sector))
    }

    /// Get sector_per_fat
    pub fn sectors_per_fat(sector: &[u8]) -> (r: u32)
        requires
            sector@.len() >= 40,
        ensures
            r == le_u32(sector@, 36),
    {
        let start: usize = BPBOffset::FatSize32.position();
        read_le_u32(Self::split(start, start + 4, sector))
    }

    /// Get root sector
    pub fn root_sector(sector: &[u8]) -> (r: u32)
        requires
            sector@.len() >= 48,
        ensures
            r == le_u32(sector@, 44),
    {
        let start: usize = BPBOffset::RootSector.position();
        read_le_u32(Self::split(start, start + 4, sector))
    }

    /// Get volume_id
    pub fn volume_id(sector: &[u8]) -> (r: u32)
        requires
            sector@.len() >= 71,
        ensures
            r == le_u32(sector@, 67),
    {
        let start: usize = BPBOffset::VolumeID.position();
        read_le_u32(Self::split(start, start + 4, sector))
    }

    /// Get volume_label
    pub fn volume_label(sector: &[u8]) -> (r: [u8; 11])
        requires
            sector@.len() >= 82,
        ensures
            r@ == sector@.subrange(71, 82),
    {
        let start: usize = BPBOffset::VolumeLabel.position();
        let mut ret: [u8; 11] = [0; 11];
        let mut i: usize = 0;
        while i < VOLUME_LABEL_LEN
            invariant
                start == 71,
                sector@.len() >= 82,
                i <= 11,
                forall|j: int| 0 <= j < i ==> ret@[j] == sector@[start + j],
            decreases 11 - i,
        {
            ret[i] = sector[start + i];
            i = i + 1;
        }
        assert(ret@ =~= sector@.subrange(71, 82));
        ret
    }

    /// Get file_system
    pub fn file_system(sector: &[u8]) -> (r: [u8; 8])
        requires
            sector@.len() >= 90,
        ensures
            r@ == sector@.subrange(82, 90),
    {
        let start: usize = BPBOffset::FileSystemType.position();
        let mut ret: [u8; 8] = [0; 8];
        let mut i: usize = 0;
        while i < FILE_SYSTEM_LEN
            invariant
                start == 82,
                sector@.len() >= 90,
                i <= 8,
                forall|j: int| 0 <= j < i ==> ret@[j] == sector@[start + j],
            decreases 8 - i,
        {
            ret[i] = sector[start + i];
            i = i + 1;
        }
        assert(ret@ =~= sector@.subrange(82, 90));
        ret
    }
}

/// Define BIOS Parameters
#[derive(Debug, Copy, Clone)]
pub struct BIOSParameterBlock {
    pub bytes_per_sector: u16,
    pub sectors_per_cluster: u8,
    pub reserved_sector: u16,
    pub num_fat: u8,
    pub total_sector: u32,
    pub sectors_per_fat: u32,
    pub root_cluster: u32,
    pub volume_id: u32,
    pub volume_label: [u8; 11],
    pub file_system: [u8; 8],
}

/// Sectors in front of the data region: the reserved sectors and every FAT.
pub open spec fn spec_sectors_before_data(reserved: int, num_fat: int, sectors_per_fat: int) -> int {
    reserved + num_fat * sectors_per_fat
}

/// The sector, counted from the start of the volume, at which `cluster` begins.
pub open spec fn spec_cluster_sector(
    reserved: int,
    num_fat: int,
    sectors_per_fat: int,
    sectors_per_cluster: int,
    cluster: int,
) -> int {
    spec_sectors_before_data(reserved, num_fat, sectors_per_fat) + (cluster - 2) * sectors_per_cluster
}

/// Sectors that remain once the reserved sectors, the FATs and the root
/// cluster number are taken from the total.
pub open spec fn spec_data_sectors(
    total: int,
    reserved: int,
    num_fat: int,
    sectors_per_fat: int,
    root: int,
) -> int {
    total - (reserved + num_fat * sectors_per_fat + root)
}

/// Every step of the data-sector subtraction stays within `u32`.
pub open spec fn spec_data_sectors_defined(
    total: int,
    reserved: int,
    num_fat: int,
    sectors_per_fat: int,
    root: int,
) -> bool {
    &&& num_fat * sectors_per_fat <= u32::MAX
    &&& reserved + num_fat * sectors_per_fat + root <= total
}

/// Products of factors that are at most the bounds are at most the bound's product.
pub proof fn lemma_mul_bounded(a: int, b: int, a_max: int, b_max: int)
    requires
        0 <= a <= a_max,
        0 <= b <= b_max,
    ensures
        0 <= a * b <= a_max * b_max,
{
    assert(0 <= a * b <= a_max * b_max) by (nonlinear_arith)
        requires
            0 <= a <= a_max,
            0 <= b <= b_max,
    ;
}

/// The data region begins at cluster 2, right after the reserved sectors and
/// the FATs, and each cluster begins one cluster's size in bytes after the one
/// before it.
pub proof fn lemma_cluster_offsets(bpb: BIOSParameterBlock, cluster: u32)
    requires
        cluster >= 2,
        cluster < u32::MAX,
    ensures
        bpb.spec_offset(2) == (bpb.reserved_sector + bpb.num_fat * bpb.sectors_per_fat)
            * bpb.bytes_per_sector,
        bpb.spec_offset((cluster + 1) as u32) == bpb.spec_offset(cluster) + bpb.sectors_per_cluster
            * bpb.bytes_per_sector,
{
    let a = bpb.reserved_sector + bpb.num_fat * bpb.sectors_per_fat;
    let k = cluster - 2;
    let n = bpb.sectors_per_cluster as int;
    let b = bpb.bytes_per_sector as int;
    assert((a + (k + 1) * n) * b == (a + k * n) * b + n * b) by (nonlinear_arith);
}

/// A block read from `sector` holds every field exactly as the boot sector
/// stores it: multi-byte fields little-endian at their positions, with every
/// byte counted, the label and file-system type copied byte for byte.
pub proof fn lemma_read_fields(bpb: BIOSParameterBlock, sector: Seq<u8>)
    requires
        sector.len() >= BPB_MIN_LEN,
        bpb.parsed_from(sector),
    ensures
        bpb.bytes_per_sector == sector[11] + 256 * sector[12],
        bpb.sectors_per_cluster == sector[13],
        bpb.reserved_sector == sector[14] + 256 * sector[15],
        bpb.num_fat == sector[16],
        bpb.total_sector == sector[32] + 256 * sector[33] + 65536 * sector[34] + 16777216
            * sector[35],
        bpb.sectors_per_fat == sector[36] + 256 * sector[37] + 65536 * sector[38] + 16777216
            * sector[39],
        bpb.root_cluster == sector[44] + 256 * sector[45] + 65536 * sector[46] + 16777216
            * sector[47],
        bpb.volume_id == sector[67] + 256 * sector[68] + 65536 * sector[69] + 16777216
            * sector[70],
        forall|i: int| 0 <= i < 11 ==> bpb.volume_label@[i] == sector[71 + i],
        forall|i: int| 0 <= i < 8 ==> bpb.file_system@[i] == sector[82 + i],
{
}

impl BIOSParameterBlock {
    /// The byte offset of the first sector of `cluster`.
    pub open spec fn spec_offset(&self, cluster: u32) -> int {
        spec_cluster_sector(
            self.reserved_sector as int,
            self.num_fat as int,
            self.sectors_per_fat as int,
            self.sectors_per_cluster as int,
            cluster as int,
        ) * self.bytes_per_sector
    }

    /// `offset(cluster)` is defined: the cluster is a data cluster and
    /// neither the sector number nor the byte offset exceed `usize`.
    pub open spec fn offset_defined(&self, cluster: u32) -> bool {
        &&& cluster >= 2
        &&& spec_cluster_sector(
            self.reserved_sector as int,
            self.num_fat as int,
            self.sectors_per_fat as int,
            self.sectors_per_cluster as int,
            cluster as int,
        ) <= usize::MAX
        &&& self.spec_offset(cluster) <= usize::MAX
    }

    /// The data sector count of this block.
    pub open spec fn spec_data_sectors(&self) -> int {
        spec_data_sectors(
            self.total_sector as int,
            self.reserved_sector as int,
            self.num_fat as int,
            self.sectors_per_fat as int,
            self.root_cluster as int,
        )
    }

    /// `data_sectors()` is defined for this block.
    pub open spec fn data_sectors_defined(&self) -> bool {
        spec_data_sectors_defined(
            self.total_sector as int,
            self.reserved_sector as int,
            self.num_fat as int,
            self.sectors_per_fat as int,
            self.root_cluster as int,
        )
    }

    /// Every field decoded from `sector`.
    pub open spec fn parsed_from(&self, sector: Seq<u8>) -> bool {
        &&& self.bytes_per_sector == le_u16(sector, 11)
        &&& self.sectors_per_cluster == sector[13]
        &&& self.reserved_sector == le_u16(sector, 14)
        &&& self.num_fat == sector[16]
        &&& self.total_sector == le_u32(sector, 32)
        &&& self.sectors_per_fat == le_u32(sector, 36)
        &&& self.root_cluster == le_u32(sector, 44)
        &&& self.volume_id == le_u32(sector, 67)
        &&& self.volume_label@ == sector.subrange(71, 82)
        &&& self.file_system@ == sector.subrange(82, 90)
    }

    /// Uninit
    pub fn uninit() -> (r: Self)
        ensures
            r.bytes_per_sector == 0,
            r.sectors_per_cluster == 0,
            r.reserved_sector == 0,
            r.num_fat == 0,
            r.total_sector == 0,
            r.sectors_per_fat == 0,
            r.root_cluster == 0,
            r.volume_id == 0,
            forall|i: int| 0 <= i < 11 ==> r.volume_label@[i] == 0,
            forall|i: int| 0 <= i < 8 ==> r.file_system@[i] == 0,
    {
        Self {
            bytes_per_sector: 0,
            sectors_per_cluster: 0,
            reserved_sector: 0,
            num_fat: 0,
            total_sector: 0,
            sectors_per_fat: 0,
            root_cluster: 0,
            volume_id: 0,
            volume_label: [0; 11],
            file_system: [0; 8],
        }
    }

    /// read secotr to init bpb
    pub fn read(&mut self, buf: &[u8])
        requires
            buf@.len() >= BPB_MIN_LEN,
        ensures
            final(self).parsed_from(buf@),
    {
        self.bytes_per_sector = BPBOffset::bytes_per_sector(buf);
        self.sectors_per_cluster = BPBOffset::sectors_per_cluster(buf);
        self.reserved_sector = BPBOffset::reversed_sector_count(buf);
        self.num_fat = BPBOffset::fat_nums(buf);
        self.total_sector = BPBOffset::total_sector(buf);
        self.sectors_per_fat = BPBOffset::sectors_per_fat(buf);
        self.root_cluster = BPBOffset::root_sector(buf);
        self.volume_id = BPBOffset::volume_id(buf);
        self.volume_label = BPBOffset::volume_label(buf);
        self.file_system = BPBOffset::file_system(buf);
    }

    /// Get the first sector offset bytes of the cluster from the cluster number
    pub fn offset(&self, cluster: u32) -> (r: usize)
        requires
            self.offset_defined(cluster),
        ensures
            r == self.spec_offset(cluster),
    {
        let reserved: usize = self.reserved_sector as usize;
        let num_fat: usize = self.num_fat as usize;
        let per_fat: usize = self.sectors_per_fat as usize;
        let per_cluster: usize = self.sectors_per_cluster as usize;
        let index: usize = cluster as usize - 2;
        let bytes: usize = self.bytes_per_sector as usize;
        proof {
            lemma_mul_bounded(num_fat as int, per_fat as int, num_fat as int, per_fat as int);
            lemma_mul_bounded(index as int, per_cluster as int, index as int, per_cluster as int);
        }
        let fats: usize = num_fat * per_fat;
        let clusters: usize = index * per_cluster;
        let sector: usize = reserved + fats + clusters;
        sector * bytes
    }

    /// Get FAT1 Offset
    pub fn fat1(&self) -> (r: usize)
        ensures
            r == self.reserved_sector * self.bytes_per_sector,
    {
        proof {
            lemma_mul_bounded(
                self.reserved_sector as int,
                self.bytes_per_sector as int,
                u16::MAX as int,
                u16::MAX as int,
            );
        }
        (self.reserved_sector as usize) * (self.bytes_per_sector as usize)
    }

    /// Get sector_per_cluster_usize as usize value
    pub fn sector_per_cluster_usize(&self) -> (r: usize)
        ensures
            r == self.sectors_per_cluster,
    {
        self.sectors_per_cluster as usize
    }

    /// Get the numbers of data clusters
    pub fn data_sectors(&self) -> (r: usize)
        requires
            self.data_sectors_defined(),
        ensures
            r == self.spec_data_sectors(),
    {
        let fats: u32 = self.num_fat as u32 * self.sectors_per_fat;
        (self.total_sector - (self.reserved_sector as u32 + fats + self.root_cluster)) as usize
    }

    /// Get the count
    pub fn count_of_clusters(&self) -> (r: usize)
        requires
            self.data_sectors_defined(),
            self.sectors_per_cluster != 0,
        ensures
            r == self.spec_data_sectors() / (self.sectors_per_cluster as int),
    {
        self.data_sectors() / self.sectors_per_cluster as usize
    }
}

} // verus!
