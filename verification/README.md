# fat32fs

A FAT32 file-system layer written in Verus: decoding the BIOS Parameter
Block of a boot sector, the layout arithmetic built on it, walking and
updating cluster chains in the File Allocation Table, and a small block
cache with a manager that keeps at most ten shared, locked caches.

- `src/` is the verified library. Every public function carries a contract
  over a model (`FatState` for a chain walk, the entry list of a cache
  manager, the bytes of a cache), and the laws that tie operations together
  (a FAT entry reads back what was written, stepping back undoes a step, a
  walk over a fixed table follows its chain, byte swaps undo themselves) are
  proof functions beside them.
- `src/fat32/` is the volume-level view of the parameter block, its device
  trait and open-file bookkeeping.
- `app/` holds the two process-wide cache managers (built with `lazy_static`)
  and the functions that lock them.
- `tests/` runs the library against a device held in memory.

Block devices are the user's: a type implements `BlockDevice`, whose contract
speaks of what a read gave and what a write was handed.
