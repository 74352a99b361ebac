use riscv_boot_core::boot::{
    kinit, MemoryMap, CLINT_MSIP, CLINT_MTIME, CLINT_MTIMECMP, PLIC_BASE, PLIC_CTX_BASE, UART_BASE,
};
use riscv_boot_core::cpu::{build_satp, kinit_hart, SatpMode, TrapFrame};
use riscv_boot_core::page::virt_to_phys;

const PAGE: u64 = 4096;

fn qemu_like_map() -> MemoryMap {
    MemoryMap {
        text_start: 0x8000_0000,
        text_end: 0x8008_0000,
        rodata_start: 0x8008_0000,
        rodata_end: 0x800a_0000,
        data_start: 0x800a_0000,
        data_end: 0x800c_0000,
        bss_start: 0x800c_0000,
        bss_end: 0x800e_0000,
        stack_start: 0x800e_0000,
        stack_end: 0x8010_0000,
        heap_start: 0x8010_0000,
        heap_size: 0x10_0000,
    }
}

#[test]
fn boot_layout_and_satp() {
    let map = qemu_like_map();
    let b = kinit(&map);
    // one table page in front, then the 64 heap frames, the root table,
    // the trap stack and the trap context block
    assert_eq!(b.frames.base, map.heap_start + PAGE);
    assert_eq!(b.heap.start, b.frames.base);
    assert_eq!(b.root_addr, b.frames.base + 64 * PAGE);
    assert_eq!(b.trap_stack_top, b.frames.base + 66 * PAGE);
    assert_eq!(b.trap_frame_addr, b.frames.base + 66 * PAGE);
    assert_eq!(b.satp, (8u64 << 60) | (b.root_addr >> 12));
    assert_eq!(b.satp, build_satp(SatpMode::Sv39, 0, b.root_addr));
    assert_eq!(b.trap_frame.satp, b.satp);
    assert_eq!(b.trap_frame.hart_id, 0);
    assert_eq!(b.trap_frame.trap_stack, b.trap_stack_top);
}

#[test]
fn boot_identity_maps_kernel_and_devices() {
    let map = qemu_like_map();
    let b = kinit(&map);
    for v in [
        map.text_start,
        map.text_end - 1,
        map.rodata_start,
        map.data_start + 5,
        map.bss_end - 1,
        map.stack_start,
        map.heap_start,          // allocator state table
        b.heap.start,            // heap data
        b.heap.start + 64 * PAGE - 1,
        UART_BASE,
        UART_BASE + 0xfff,
        CLINT_MSIP,
        CLINT_MTIMECMP,
        CLINT_MTIME,
        PLIC_BASE,
        PLIC_BASE + 0x2000,
        PLIC_CTX_BASE,
        PLIC_CTX_BASE + 0x7fff,
        b.trap_stack_top - 1,
        b.trap_frame_addr,
    ] {
        assert_eq!(virt_to_phys(&b.root, v), Some(v), "walk of {v:#x}");
    }
}

#[test]
fn boot_leaves_everything_else_unmapped() {
    let map = qemu_like_map();
    let b = kinit(&map);
    // the root table's own frame is not identity-mapped
    assert_eq!(virt_to_phys(&b.root, b.root_addr), None);
    // and neither is anything outside the listed ranges
    assert_eq!(virt_to_phys(&b.root, 0), None);
    assert_eq!(virt_to_phys(&b.root, 0x4000_0000), None);
    assert_eq!(virt_to_phys(&b.root, map.heap_start + map.heap_size + PAGE), None);
}

#[test]
fn boot_heap_is_one_free_block() {
    let map = qemu_like_map();
    let mut b = kinit(&map);
    assert_eq!(b.heap.blocks.len(), 1);
    assert!(!b.heap.blocks[0].taken);
    assert_eq!(b.heap.blocks[0].size, 64 * PAGE - 8);
    // the heap is usable right away
    let p = b.heap.allocate(4).unwrap();
    assert_eq!(p, b.heap.start + 8);
}

#[test]
fn secondary_hart_records_its_id() {
    let mut frames = vec![TrapFrame::new(), TrapFrame::new(), TrapFrame::new()];
    kinit_hart(&mut frames, 2);
    assert_eq!(frames[2].hart_id, 2);
    assert_eq!(frames[0].hart_id, 0);
    // nothing else of the block is touched yet
    assert_eq!(frames[2].satp, 0);
    assert_eq!(frames[2].trap_stack, 0);
}

#[test]
fn satp_encoding() {
    assert_eq!(
        build_satp(SatpMode::Sv39, 0, 0x8020_0000),
        (8u64 << 60) | (0x8020_0000u64 >> 12)
    );
    assert_eq!(build_satp(SatpMode::Bare, 0, 0), 0);
    assert_eq!(
        build_satp(SatpMode::Sv48, 1, 0x1000),
        (9u64 << 60) | (1u64 << 44) | 1
    );
}
