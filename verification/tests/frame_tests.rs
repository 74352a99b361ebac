use riscv_boot_core::frame::{FrameAllocator, FrameState};

const PAGE: u64 = 4096;
const BASE: u64 = 0x8020_0000;

/// A region whose state table takes one frame and that manages exactly
/// `frames` allocatable frames.
fn allocator_with(frames: u64) -> FrameAllocator {
    FrameAllocator::new(BASE, (frames + 1) * PAGE)
}

#[test]
fn capacity_and_base() {
    let fa = allocator_with(64);
    assert_eq!(fa.states.len(), 64);
    assert_eq!(fa.base, BASE + PAGE);
    assert!(fa.states.iter().all(|s| *s == FrameState::Free));
    assert!(fa.mem.iter().all(|b| *b == 0));
    assert_eq!(fa.mem.len(), 64 * 4096);
}

#[test]
fn allocate_returns_aligned_first_fit() {
    let mut fa = allocator_with(8);
    let a = fa.allocate(3).unwrap();
    assert_eq!(a, fa.base);
    assert_eq!(a % PAGE, 0);
    assert_eq!(fa.states[0], FrameState::Head);
    assert_eq!(fa.states[1], FrameState::Taken);
    assert_eq!(fa.states[2], FrameState::Taken);
    assert_eq!(fa.states[3], FrameState::Free);
}

#[test]
fn allocate_then_deallocate_frees_exactly_the_run() {
    let mut fa = allocator_with(16);
    let a = fa.allocate(5).unwrap();
    let before: Vec<FrameState> = fa.states.clone();
    assert_eq!(before.iter().filter(|s| **s != FrameState::Free).count(), 5);
    fa.deallocate(a);
    assert!(fa.states.iter().all(|s| *s == FrameState::Free));
    // a repeated request of the same size is answered with the same address
    let b = fa.allocate(5).unwrap();
    assert_eq!(a, b);
}

#[test]
fn runs_never_overlap_until_exhaustion() {
    let mut fa = allocator_with(4);
    let a = fa.allocate(2).unwrap();
    let b = fa.allocate(2).unwrap();
    // disjoint, adjacent runs
    assert_eq!(b, a + 2 * PAGE);
    // exhausted: empty result, state intact
    assert_eq!(fa.allocate(1), None);
    assert_eq!(fa.states[0], FrameState::Head);
    assert_eq!(fa.states[2], FrameState::Head);
}

#[test]
fn allocate_skips_too_small_holes() {
    let mut fa = allocator_with(8);
    let a = fa.allocate(1).unwrap();
    let _k1 = fa.allocate(1).unwrap();
    let b = fa.allocate(2).unwrap();
    let _k2 = fa.allocate(1).unwrap();
    fa.deallocate(a);
    fa.deallocate(b);
    // separate holes of 1 and 2 frames exist in front; a 3-frame request
    // must go past them to the tail
    let d = fa.allocate(3).unwrap();
    assert_eq!(d, fa.base + 5 * PAGE);
    // but a 2-frame request reuses the freed 2-frame hole
    let e = fa.allocate(2).unwrap();
    assert_eq!(e, b);
}

#[test]
fn allocated_memory_is_zeroed() {
    let mut fa = allocator_with(4);
    let a = fa.allocate(1).unwrap();
    fa.write_byte(a, 0xab);
    fa.write_byte(a + 4095, 0xcd);
    assert_eq!(fa.read_byte(a), 0xab);
    fa.deallocate(a);
    let b = fa.allocate(1).unwrap();
    assert_eq!(a, b);
    // the run was cleared on allocation
    assert_eq!(fa.read_byte(b), 0);
    assert_eq!(fa.read_byte(b + 4095), 0);
}

#[test]
fn sixty_four_frame_scenario() {
    // a 64-frame region; allocations of 1, 2 and 1 frames
    let mut fa = allocator_with(64);
    let a1 = fa.allocate(1).unwrap();
    let a2 = fa.allocate(2).unwrap();
    let a3 = fa.allocate(1).unwrap();
    assert_eq!(a1, fa.base);
    assert_eq!(a2, fa.base + PAGE);
    assert_eq!(a3, fa.base + 3 * PAGE);
    // free the middle, two-frame allocation
    fa.deallocate(a2);
    // exactly the two middle frames are free and contiguous
    assert_eq!(fa.states[0], FrameState::Head);
    assert_eq!(fa.states[1], FrameState::Free);
    assert_eq!(fa.states[2], FrameState::Free);
    assert_eq!(fa.states[3], FrameState::Head);
    let taken: usize = fa.states.iter().filter(|s| **s != FrameState::Free).count();
    assert_eq!(taken, 2);
    // the next two-frame request returns precisely the freed range
    let again = fa.allocate(2).unwrap();
    assert_eq!(again, a2);
}

#[test]
fn zero_capacity_region_rejects_all() {
    let mut fa = FrameAllocator::new(BASE, PAGE);
    assert_eq!(fa.states.len(), 0);
    assert_eq!(fa.allocate(1), None);
}
