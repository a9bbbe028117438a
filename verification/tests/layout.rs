use fat32fs::bpb::{BIOSParameterBlock, BPBOffset};
use fat32fs::fat32::bpb::BIOSParameterBlock as VolumeParameterBlock;
use fat32fs::utils::{bytes_order_u16, bytes_order_u32, le_bytes_u32, read_le_u16, read_le_u32};

/// A boot sector with known field values.
fn boot_sector() -> Vec<u8> {
    let mut s = vec![0u8; 512];
    s[11] = 0x00;
    s[12] = 0x02; // 512 bytes per sector
    s[13] = 8; // sectors per cluster
    s[14] = 0x20;
    s[15] = 0x00; // 32 reserved sectors
    s[16] = 2; // two FATs
    s[32..36].copy_from_slice(&1_000_000u32.to_le_bytes());
    s[36..40].copy_from_slice(&1_000u32.to_le_bytes());
    s[44..48].copy_from_slice(&2u32.to_le_bytes());
    s[67..71].copy_from_slice(&0xDEADBEEFu32.to_le_bytes());
    s[71..82].copy_from_slice(b"NO NAME    ");
    s[82..90].copy_from_slice(b"FAT32   ");
    s
}

#[test]
fn bytes_order_u16_swaps_bytes() {
    assert_eq!(bytes_order_u16(0x1234), 0x3412);
    assert_eq!(bytes_order_u16(0x00ff), 0xff00);
    assert_eq!(bytes_order_u16(0), 0);
}

#[test]
fn bytes_order_u32_reverses_bytes() {
    assert_eq!(bytes_order_u32(0x12345678), 0x78563412);
    assert_eq!(bytes_order_u32(0x000000ff), 0xff000000);
    assert_eq!(bytes_order_u32(u32::MAX), u32::MAX);
}

#[test]
fn bytes_order_twice_is_identity() {
    for x in [0u16, 1, 0x1234, 0xabcd, u16::MAX] {
        assert_eq!(bytes_order_u16(bytes_order_u16(x)), x);
    }
    for x in [0u32, 1, 0x12345678, 0xdeadbeef, u32::MAX] {
        assert_eq!(bytes_order_u32(bytes_order_u32(x)), x);
    }
}

#[test]
fn little_endian_helpers() {
    assert_eq!(read_le_u16(&[0x34, 0x12]), 0x1234);
    assert_eq!(read_le_u32(&[0x78, 0x56, 0x34, 0x12]), 0x12345678);
    assert_eq!(le_bytes_u32(0x12345678), [0x78, 0x56, 0x34, 0x12]);
    assert_eq!(read_le_u32(&le_bytes_u32(0x0FFFFFFF)), 0x0FFFFFFF);
}

#[test]
fn field_positions() {
    assert_eq!(BPBOffset::BytesPerSector.position(), 11);
    assert_eq!(BPBOffset::SectorsPerCluster.position(), 13);
    assert_eq!(BPBOffset::ReservedSectorCount.position(), 14);
    assert_eq!(BPBOffset::FatNums.position(), 16);
    assert_eq!(BPBOffset::TotalSector32.position(), 32);
    assert_eq!(BPBOffset::FatSize32.position(), 36);
    assert_eq!(BPBOffset::RootSector.position(), 44);
    assert_eq!(BPBOffset::VolumeID.position(), 67);
    assert_eq!(BPBOffset::VolumeLabel.position(), 71);
    assert_eq!(BPBOffset::FileSystemType.position(), 82);
}

#[test]
fn split_takes_the_range() {
    let s = [1u8, 2, 3, 4, 5];
    assert_eq!(BPBOffset::split(1, 4, &s), &[2, 3, 4]);
    assert_eq!(BPBOffset::split(2, 2, &s), &[] as &[u8]);
}

#[test]
fn field_getters_decode_little_endian() {
    let s = boot_sector();
    assert_eq!(BPBOffset::bytes_per_sector(&s), 512);
    assert_eq!(BPBOffset::sectors_per_cluster(&s), 8);
    assert_eq!(BPBOffset::reversed_sector_count(&s), 32);
    assert_eq!(BPBOffset::fat_nums(&s), 2);
    assert_eq!(BPBOffset::total_sector(&s), 1_000_000);
    assert_eq!(BPBOffset::sectors_per_fat(&s), 1_000);
    assert_eq!(BPBOffset::root_sector(&s), 2);
    assert_eq!(BPBOffset::volume_id(&s), 0xDEADBEEF);
    assert_eq!(&BPBOffset::volume_label(&s), b"NO NAME    ");
    assert_eq!(&BPBOffset::file_system(&s), b"FAT32   ");
}

#[test]
fn read_fills_every_field() {
    let s = boot_sector();
    let mut bpb = BIOSParameterBlock::uninit();
    bpb.read(&s);
    assert_eq!(bpb.bytes_per_sector, 512);
    assert_eq!(bpb.sectors_per_cluster, 8);
    assert_eq!(bpb.reserved_sector, 32);
    assert_eq!(bpb.num_fat, 2);
    assert_eq!(bpb.total_sector, 1_000_000);
    assert_eq!(bpb.sectors_per_fat, 1_000);
    assert_eq!(bpb.root_cluster, 2);
    assert_eq!(bpb.volume_id, 0xDEADBEEF);
    assert_eq!(&bpb.volume_label, b"NO NAME    ");
    assert_eq!(&bpb.file_system, b"FAT32   ");
}

#[test]
fn read_accepts_the_shortest_sector() {
    let s = boot_sector();
    let mut bpb = BIOSParameterBlock::uninit();
    bpb.read(&s[..90]);
    assert_eq!(&bpb.file_system, b"FAT32   ");
}

#[test]
fn uninit_is_all_zero() {
    let bpb = BIOSParameterBlock::uninit();
    assert_eq!(bpb.bytes_per_sector, 0);
    assert_eq!(bpb.sectors_per_cluster, 0);
    assert_eq!(bpb.reserved_sector, 0);
    assert_eq!(bpb.num_fat, 0);
    assert_eq!(bpb.total_sector, 0);
    assert_eq!(bpb.sectors_per_fat, 0);
    assert_eq!(bpb.root_cluster, 0);
    assert_eq!(bpb.volume_id, 0);
    assert_eq!(bpb.volume_label, [0; 11]);
    assert_eq!(bpb.file_system, [0; 8]);
}

#[test]
fn layout_arithmetic() {
    let mut bpb = BIOSParameterBlock::uninit();
    bpb.read(&boot_sector());
    // FAT1 starts after the reserved sectors.
    assert_eq!(bpb.fat1(), 32 * 512);
    // Cluster 2 starts after the reserved sectors and both FATs.
    assert_eq!(bpb.offset(2), (32 + 2 * 1_000) * 512);
    // Each cluster is 8 sectors of 512 bytes.
    assert_eq!(bpb.offset(3) - bpb.offset(2), 8 * 512);
    assert_eq!(bpb.offset(10), (32 + 2_000 + 8 * 8) * 512);
    assert_eq!(bpb.sector_per_cluster_usize(), 8);
    assert_eq!(bpb.data_sectors(), 1_000_000 - (32 + 2_000 + 2));
    assert_eq!(bpb.count_of_clusters(), (1_000_000 - 2_034) / 8);
}

#[test]
fn volume_block_layout_arithmetic() {
    let mut bpb = VolumeParameterBlock::uninit();
    bpb.byte_per_sector = 512;
    bpb.sector_per_cluster = 4;
    bpb.reserved_sector = 6;
    bpb.num_fat = 2;
    bpb.sector_per_fat = 100;
    bpb.total_sector = 10_000;
    bpb.root_cluster = 2;
    assert_eq!(bpb.fat1(), 6 * 512);
    assert_eq!(bpb.offset(2), 206 * 512);
    assert_eq!(bpb.offset(5), (206 + 12) * 512);
    assert_eq!(bpb.sector_per_cluster_usize(), 4);
    assert_eq!(bpb.data_sectors(), 10_000 - 208);
    assert_eq!(bpb.count_of_clusters(), (10_000 - 208) / 4);
}

#[test]
fn volume_block_uninit_is_all_zero() {
    let bpb = VolumeParameterBlock::uninit();
    assert_eq!(bpb.byte_per_sector, 0);
    assert_eq!(bpb.sector_per_cluster, 0);
    assert_eq!(bpb.id, 0);
    assert_eq!(bpb.volume_label, [0; 11]);
    assert_eq!(bpb.file_system, [0; 8]);
}
