use riscv_boot_core::frame::FrameAllocator;
use riscv_boot_core::kmem::{KernelHeap, DESC_SIZE};

const PAGE: u64 = 4096;
const BASE: u64 = 0x8020_0000;

fn heap_with(pages: u64) -> KernelHeap {
    let mut fa = FrameAllocator::new(BASE, (pages + 1) * PAGE);
    KernelHeap::init(&mut fa, pages as usize).unwrap()
}

#[test]
fn init_lays_out_one_free_block() {
    let h = heap_with(4);
    assert_eq!(h.start, BASE + PAGE);
    assert_eq!(h.blocks.len(), 1);
    assert_eq!(h.blocks[0].addr, h.start);
    assert_eq!(h.blocks[0].size, 4 * PAGE - DESC_SIZE);
    assert!(!h.blocks[0].taken);
    assert!(h.mem.iter().all(|b| *b == 0));
}

#[test]
fn init_fails_when_frames_are_exhausted() {
    let mut fa = FrameAllocator::new(BASE, 3 * PAGE);
    // two allocatable frames cannot grant four
    assert!(KernelHeap::init(&mut fa, 4).is_none());
}

#[test]
fn allocate_gives_enough_bytes_and_splits() {
    let mut h = heap_with(4);
    let p = h.allocate(100).unwrap();
    assert_eq!(p, h.start + DESC_SIZE);
    assert_eq!(h.blocks.len(), 2);
    assert!(h.blocks[0].taken);
    // at least the requested size, rounded to eight bytes
    assert!(h.blocks[0].size >= 100);
    assert_eq!(h.blocks[0].size, 104);
    assert!(!h.blocks[1].taken);
    assert_eq!(h.blocks[1].addr, h.start + DESC_SIZE + 104);
}

#[test]
fn allocate_returns_null_on_exhaustion() {
    let mut h = heap_with(2);
    assert_eq!(h.allocate(2 * PAGE), None);
    let a = h.allocate(1000).unwrap();
    // 8192 bytes minus two descriptors minus the first block leave 7176
    assert_eq!(h.allocate(7200), None);
    // the failed request corrupted nothing: the earlier block stands
    assert_eq!(h.blocks[0].addr + DESC_SIZE, a);
    assert!(h.blocks[0].taken);
}

#[test]
fn byte_round_trip_is_stable_until_freed() {
    let mut h = heap_with(2);
    let s: u64 = 64;
    let p = h.allocate(s).unwrap();
    for i in 0..s {
        h.write_byte(p + i, (i as u8).wrapping_mul(7));
    }
    let q = h.allocate(16).unwrap();
    h.write_byte(q, 0xff);
    for i in 0..s {
        assert_eq!(h.read_byte(p + i), (i as u8).wrapping_mul(7));
    }
    h.deallocate(p);
    // a request no bigger than the freed block may reuse that memory
    let again = h.allocate(32).unwrap();
    assert_eq!(again, p);
}

#[test]
fn deallocate_coalesces_with_following_free_block() {
    let mut h = heap_with(2);
    let a = h.allocate(100).unwrap();
    // free the only taken block: it merges with the trailing free block
    h.deallocate(a);
    assert_eq!(h.blocks.len(), 1);
    assert!(!h.blocks[0].taken);
    assert_eq!(h.blocks[0].size, 2 * PAGE - DESC_SIZE);
}

#[test]
fn deallocate_without_free_neighbour_keeps_blocks_apart() {
    let mut h = heap_with(2);
    let a = h.allocate(100).unwrap();
    let b = h.allocate(100).unwrap();
    h.deallocate(a);
    // the following block is taken, so no merge happens
    assert_eq!(h.blocks.len(), 3);
    assert!(!h.blocks[0].taken);
    assert!(h.blocks[1].taken);
    // and the freed slot is reused first
    let c = h.allocate(100).unwrap();
    assert_eq!(c, a);
    assert_ne!(b, c);
}

#[test]
fn allocate_round_trip_returns_same_pointer() {
    let mut h = heap_with(4);
    let p = h.allocate(500).unwrap();
    h.deallocate(p);
    let q = h.allocate(500).unwrap();
    assert_eq!(p, q);
}
