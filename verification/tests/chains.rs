use std::sync::{Arc, Mutex};

use fat32fs::block_cache::{first_unshared, BlockCache, BlockCacheManager, CacheMode, BLOCK_CACHE_SIZE};
use fat32fs::device::BlockDevice;
use fat32fs::bpb::BIOSParameterBlock;
use fat32fs::fat::{first_free_in, next_cluster_in, set_entry, END_OF_CHAIN, FAT};

/// A device of 512-byte blocks held in memory.
struct MemDevice {
    blocks: Mutex<Vec<[u8; 512]>>,
    writes: Mutex<usize>,
}

impl MemDevice {
    fn new(n: usize) -> Self {
        MemDevice { blocks: Mutex::new(vec![[0u8; 512]; n]), writes: Mutex::new(0) }
    }
    fn block(&self, id: usize) -> [u8; 512] {
        self.blocks.lock().unwrap()[id]
    }
    fn set_entry_raw(&self, block: usize, slot: usize, value: u32) {
        self.blocks.lock().unwrap()[block][slot * 4..slot * 4 + 4]
            .copy_from_slice(&value.to_le_bytes());
    }
    fn writes(&self) -> usize {
        *self.writes.lock().unwrap()
    }
}

impl BlockDevice for MemDevice {
    fn reads_as(&self, _block_id: usize, _data: vstd::seq::Seq<u8>) -> bool {
        true
    }
    fn written(&self, _block_id: usize, _data: vstd::seq::Seq<u8>) -> bool {
        true
    }
    fn read(&self, block_id: usize, buf: &mut [u8]) {
        buf.copy_from_slice(&self.blocks.lock().unwrap()[block_id]);
    }
    fn write(&self, block_id: usize, buf: &[u8]) {
        self.blocks.lock().unwrap()[block_id].copy_from_slice(buf);
        *self.writes.lock().unwrap() += 1;
    }
}

#[test]
fn entry_decoding() {
    let mut block = [0u8; 512];
    block[8..12].copy_from_slice(&3u32.to_le_bytes());
    block[12..16].copy_from_slice(&END_OF_CHAIN.to_le_bytes());
    assert_eq!(next_cluster_in(&block, 2), Some(3));
    assert_eq!(next_cluster_in(&block, 3), None);
    // Entries repeat every 128 clusters within a block.
    assert_eq!(next_cluster_in(&block, 130), Some(3));
    assert_eq!(next_cluster_in(&block, 0), Some(0));
}

#[test]
fn entry_read_after_write() {
    let mut block = [0xAAu8; 512];
    set_entry(&mut block, 200, 0x01020304);
    assert_eq!(&block[288..292], &[4, 3, 2, 1]);
    assert_eq!(next_cluster_in(&block, 200), Some(0x01020304));
    // The entries of other clusters are untouched.
    assert_eq!(next_cluster_in(&block, 201), Some(0xAAAAAAAA));
    assert_eq!(block[287], 0xAA);
    assert_eq!(block[292], 0xAA);
    set_entry(&mut block, 200, END_OF_CHAIN);
    assert_eq!(next_cluster_in(&block, 200), None);
}

#[test]
fn first_free_entry() {
    let mut block = [0u8; 512];
    assert_eq!(first_free_in(&block), Some(0));
    for slot in 0..5 {
        block[slot * 4] = 1;
    }
    assert_eq!(first_free_in(&block), Some(5));
    let full = [0xFFu8; 512];
    assert_eq!(first_free_in(&full), None);
}

/// A device whose table (at byte 1024, block 2) holds the chain 2 -> 3 -> 130.
fn chained_device() -> Arc<MemDevice> {
    let dev = MemDevice::new(8);
    dev.set_entry_raw(2, 2, 3);
    dev.set_entry_raw(2, 3, 130);
    dev.set_entry_raw(3, 2, END_OF_CHAIN); // entry of cluster 130
    Arc::new(dev)
}

#[test]
fn walk_a_chain() {
    let dev = chained_device();
    let mut fat = FAT::new(2, 1024, dev);
    assert_eq!(fat.current_cluster_usize(), 0);
    assert!(fat.next_is_none());

    let first = fat.next().expect("start of chain");
    assert_eq!(fat.current_cluster_usize(), 2);
    assert_eq!(first.current_cluster_usize(), 2);
    assert!(!fat.next_is_none());

    fat.next().expect("second cluster");
    assert_eq!(fat.current_cluster_usize(), 3);

    fat.next().expect("third cluster");
    assert_eq!(fat.current_cluster_usize(), 130);
    assert!(fat.next_is_none());

    assert!(fat.next().is_none());
    assert_eq!(fat.current_cluster_usize(), 130);
}

#[test]
fn previous_steps_back() {
    let dev = chained_device();
    let mut fat = FAT::new(2, 1024, dev);
    fat.next();
    fat.next();
    assert_eq!(fat.current_cluster_usize(), 3);
    fat.previous();
    assert_eq!(fat.current_cluster_usize(), 2);
    assert!(!fat.next_is_none());
    // Stepping forward again returns to cluster 3.
    fat.next();
    assert_eq!(fat.current_cluster_usize(), 3);
}

#[test]
fn previous_before_start_does_nothing() {
    let dev = chained_device();
    let mut fat = FAT::new(2, 1024, dev);
    fat.previous();
    assert_eq!(fat.current_cluster_usize(), 0);
    assert!(fat.next_is_none());
}

#[test]
fn refresh_restarts_at_new_cluster() {
    let dev = chained_device();
    let mut fat = FAT::new(2, 1024, dev);
    fat.next();
    fat.next();
    fat.refresh(130);
    assert_eq!(fat.current_cluster_usize(), 0);
    fat.next();
    assert_eq!(fat.current_cluster_usize(), 130);
    assert!(fat.next_is_none());
}

#[test]
fn write_then_walk() {
    let dev = chained_device();
    let mut fat = FAT::new(2, 1024, dev.clone());
    fat.write(3, END_OF_CHAIN);
    let block = dev.block(2);
    assert_eq!(&block[12..16], &END_OF_CHAIN.to_le_bytes());
    fat.next();
    fat.next();
    assert_eq!(fat.current_cluster_usize(), 3);
    assert!(fat.next_is_none());
    // A cluster past the first table block lands in the next block.
    fat.write(131, 7);
    assert_eq!(&dev.block(3)[12..16], &7u32.to_le_bytes());
}

#[test]
fn cache_loads_and_writes_back() {
    let dev = Arc::new(MemDevice::new(4));
    dev.set_entry_raw(1, 0, 0x11223344);
    let mut cache = BlockCache::new(1, dev.clone());
    assert_eq!(&cache.cache[0..4], &[0x44, 0x33, 0x22, 0x11]);
    assert_eq!(cache.get_ref(1, 2), &[0x33, 0x22]);
    // Unchanged caches are not written back.
    cache.sync();
    assert_eq!(dev.writes(), 0);
    cache.get_mut(4, 2).copy_from_slice(&[9, 8]);
    assert_eq!(cache.cache[4], 9);
    cache.sync();
    assert_eq!(dev.writes(), 1);
    assert_eq!(dev.block(1)[4..6], [9, 8]);
    // A second sync has nothing to write.
    cache.sync();
    assert_eq!(dev.writes(), 1);
}

#[test]
fn cache_read_and_modify() {
    let dev = Arc::new(MemDevice::new(2));
    let mut cache = BlockCache::new(0, dev.clone());
    let sum: u32 = cache.read(0, 4, |b: &[u8]| b.iter().map(|x| *x as u32).sum());
    assert_eq!(sum, 0);
    let n = cache.modify(10, 3, |b: &mut [u8]| {
        b.copy_from_slice(&[1, 2, 3]);
        b.len()
    });
    assert_eq!(n, 3);
    assert_eq!(cache.cache[9..14], [0, 1, 2, 3, 0]);
    cache.sync();
    assert_eq!(dev.block(0)[10..13], [1, 2, 3]);
}

#[test]
fn unshared_choice() {
    assert_eq!(first_unshared(&vec![2, 3, 1, 1]), Some(2));
    assert_eq!(first_unshared(&vec![1]), Some(0));
    assert_eq!(first_unshared(&vec![2, 2]), None);
    assert_eq!(first_unshared(&vec![]), None);
}

#[test]
fn manager_finds_what_it_loaded() {
    let dev = Arc::new(MemDevice::new(32));
    let mut m: BlockCacheManager<MemDevice> = BlockCacheManager::new();
    assert!(m.read_block_cache(5).is_none());
    let a = m.get_block_cache(5, dev.clone()).unwrap();
    let b = m.read_block_cache(5).unwrap();
    assert!(Arc::ptr_eq(&a, &b));
    let c = m.get_block_cache(5, dev.clone()).unwrap();
    assert!(Arc::ptr_eq(&a, &c));
    assert!(m.read_block_cache(6).is_none());
}

#[test]
fn manager_start_sector() {
    let mut m: BlockCacheManager<MemDevice> = BlockCacheManager::new();
    assert_eq!(m.get_start_sec(), 0);
    m.set_start_sec(2048);
    assert_eq!(m.get_start_sec(), 2048);
}

#[test]
fn manager_evicts_oldest_unshared() {
    let dev = Arc::new(MemDevice::new(32));
    let mut m: BlockCacheManager<MemDevice> = BlockCacheManager::new();
    let held = m.get_block_cache(0, dev.clone()).unwrap();
    for id in 1..BLOCK_CACHE_SIZE {
        m.get_block_cache(id, dev.clone()).unwrap();
    }
    // Block 0 is still held here, so block 1 is the oldest nobody holds.
    let dirty = m.read_block_cache(1).unwrap();
    dirty.write().get_mut(0, 1)[0] = 0x5A;
    drop(dirty);
    m.get_block_cache(20, dev.clone()).unwrap();
    assert!(m.read_block_cache(0).is_some());
    assert!(m.read_block_cache(1).is_none());
    assert!(m.read_block_cache(20).is_some());
    // The changed block was written back when it was given up.
    assert_eq!(dev.block(1)[0], 0x5A);
    drop(held);
}

#[test]
fn manager_full_of_shared_caches_refuses() {
    let dev = Arc::new(MemDevice::new(32));
    let mut m: BlockCacheManager<MemDevice> = BlockCacheManager::new();
    let mut held = Vec::new();
    for id in 0..BLOCK_CACHE_SIZE {
        held.push(m.get_block_cache(id, dev.clone()).unwrap());
    }
    assert!(m.get_block_cache(20, dev.clone()).is_none());
    for id in 0..BLOCK_CACHE_SIZE {
        assert!(m.read_block_cache(id).is_some());
    }
    // A block already held is still handed out.
    assert!(m.get_block_cache(3, dev.clone()).is_some());
}

#[test]
fn drop_all_writes_back() {
    let dev = Arc::new(MemDevice::new(8));
    let mut m: BlockCacheManager<MemDevice> = BlockCacheManager::new();
    let c = m.get_block_cache(2, dev.clone()).unwrap();
    c.write().get_mut(100, 2).copy_from_slice(&[7, 7]);
    drop(c);
    m.drop_all();
    assert!(m.read_block_cache(2).is_none());
    assert_eq!(dev.block(2)[100..102], [7, 7]);
}

#[test]
fn evict_unshared_gives_up_the_first_unheld() {
    let dev = Arc::new(MemDevice::new(32));
    let mut m: BlockCacheManager<MemDevice> = BlockCacheManager::new();
    for id in 0..4 {
        m.get_block_cache(id, dev.clone()).unwrap();
    }
    assert_eq!(m.evict_unshared(&vec![2, 3, 1, 1]), Some(2));
    assert!(m.read_block_cache(2).is_none());
    assert!(m.read_block_cache(3).is_some());
    assert_eq!(m.evict_unshared(&vec![2, 2, 2]), None);
    assert!(m.read_block_cache(0).is_some());
}

#[test]
fn cache_at_counts_from_start_sector() {
    let dev = Arc::new(MemDevice::new(32));
    dev.set_entry_raw(12, 0, 0x01020304);
    let mut m: BlockCacheManager<MemDevice> = BlockCacheManager::new();
    m.set_start_sec(10);
    let c = m.cache_at(2, dev.clone(), CacheMode::READ).unwrap();
    assert_eq!(c.read().cache[0..4], [4, 3, 2, 1]);
    let w = m.cache_at(2, dev.clone(), CacheMode::WRITE).unwrap();
    assert!(Arc::ptr_eq(&c, &w));
    assert!(m.read_block_cache(12).is_some());
    assert!(m.cache_at(usize::MAX, dev.clone(), CacheMode::READ).is_none());
}

#[test]
fn drop_all_does_not_wait_for_held_locks() {
    let dev = Arc::new(MemDevice::new(8));
    let mut m: BlockCacheManager<MemDevice> = BlockCacheManager::new();
    let c = m.get_block_cache(1, dev.clone()).unwrap();
    let guard = c.read();
    m.drop_all();
    assert!(m.read_block_cache(1).is_none());
    drop(guard);
}

fn layout_512_by_1() -> BIOSParameterBlock {
    let mut bpb = BIOSParameterBlock::uninit();
    bpb.bytes_per_sector = 512;
    bpb.sectors_per_cluster = 1;
    bpb
}

#[test]
fn blank_cluster_finds_first_free_entry() {
    let dev = Arc::new(MemDevice::new(8));
    for slot in 0..5 {
        dev.set_entry_raw(2, slot, 0x0FFFFFFF);
    }
    let mut fat = FAT::new(2, 1024, dev.clone());
    fat.set_layout(&layout_512_by_1());
    assert_eq!(fat.blank_cluster(), Some(5));
}

#[test]
fn blank_cluster_scans_past_full_blocks() {
    let dev = Arc::new(MemDevice::new(8));
    for slot in 0..128 {
        dev.set_entry_raw(2, slot, 1);
    }
    for slot in 0..3 {
        dev.set_entry_raw(3, slot, 1);
    }
    let mut fat = FAT::new(2, 1024, dev.clone());
    fat.set_layout(&layout_512_by_1());
    assert_eq!(fat.blank_cluster(), Some(131));
}
