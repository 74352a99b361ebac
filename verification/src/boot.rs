//! Boot orchestrator.
//!
//! Brings a freshly reset hart from bare physical addressing to a fully
//! paged, interrupt-capable state: initialize the frame allocator over the
//! reserved heap region, carve the kernel heap out of it, build the root
//! page table, identity-map every kernel section and every device register
//! window, set up the trap stack and the trap context block, and compute
//! the translation control value whose installation (by the machine-level
//! shell) turns translation on. Everything the kernel will touch after that
//! point is mapped here first; the contract lists, range by range, what the
//! resulting table translates.

use vstd::prelude::*;
use vstd::pervasive::unreached;

verus! {

use crate::PAGE_SIZE;
use crate::cpu::SatpMode;
use crate::cpu::TrapFrame;
use crate::cpu::build_satp;
use crate::frame::FrameAllocator;
use crate::frame::FrameState;
use crate::frame::free_run;
use crate::frame::is_first_fit;
use crate::frame::mark_allocated;
use crate::kmem::KernelHeap;
use crate::page::ENTRY_READ_EXECUTE;
use crate::page::ENTRY_READ_WRITE;
use crate::page::Mapping;
use crate::page::Table;
use crate::page::VA_TOP;
use crate::page::id_map_range;
use crate::page::page_down;
use crate::page::page_up;
use crate::page::translate;

/// UART register window.
pub const UART_BASE: u64 = 0x1000_0000;

/// Core-local interruptor: software-interrupt register page.
pub const CLINT_MSIP: u64 = 0x0200_0000;

/// Core-local interruptor: timer-compare register page.
pub const CLINT_MTIMECMP: u64 = 0x0200_b000;

/// Core-local interruptor: timer-counter register page.
pub const CLINT_MTIME: u64 = 0x0200_c000;

/// External interrupt controller: pending/enable window.
pub const PLIC_BASE: u64 = 0x0c00_0000;

/// End of the pending/enable window (inclusive of the enable words).
pub const PLIC_END: u64 = 0x0c00_2001;

/// External interrupt controller: priority/context window.
pub const PLIC_CTX_BASE: u64 = 0x0c20_0000;

/// End of the priority/context window.
pub const PLIC_CTX_END: u64 = 0x0c20_8000;

/// Pages the boot path takes from the frame allocator: 64 for the kernel
/// heap, one for the root page table, one for the trap stack, one for the
/// trap context block.
pub const BOOT_FRAMES: u64 = 67;

/// Pages granted to the kernel heap.
pub const HEAP_PAGES: u64 = 64;

/// Link-time memory layout: `[start, end)` of each kernel section, and the
/// reserved heap region the allocators manage. Supplied by the link step;
/// read-only configuration for the boot path.
pub struct MemoryMap {
    pub text_start: u64,
    pub text_end: u64,
    pub rodata_start: u64,
    pub rodata_end: u64,
    pub data_start: u64,
    pub data_end: u64,
    pub bss_start: u64,
    pub bss_end: u64,
    pub stack_start: u64,
    pub stack_end: u64,
    pub heap_start: u64,
    pub heap_size: u64,
}

/// Everything the boot path hands back: the allocators, the root table and
/// its physical address, the boot hart's trap context block, and the
/// translation control value to install.
pub struct BootState {
    pub frames: FrameAllocator,
    pub heap: KernelHeap,
    pub root: Table,
    pub root_addr: u64,
    pub trap_frame: TrapFrame,
    pub trap_stack_top: u64,
    pub trap_frame_addr: u64,
    pub satp: u64,
}

/// Number of frames the allocator extracts from a region of `size` bytes
/// (the rest of the region holds its state table).
pub open spec fn fa_capacity(size: int) -> int {
    let total = size / (PAGE_SIZE as int);
    let table_pages = (total + PAGE_SIZE - 1) / (PAGE_SIZE as int);
    if total >= table_pages {
        total - table_pages
    } else {
        0
    }
}

/// The page-rounded ranges of `[xs, xe)` and `[ys, ye)` share no page.
pub open spec fn pages_disjoint(xs: u64, xe: u64, ys: u64, ye: u64) -> bool {
    page_up(xe) <= page_down(ys) || page_up(ye) <= page_down(xs)
}

/// The executable range `[s, e)` shares no page with any range that boot
/// maps read-write: the heap region, the writable sections, the kernel
/// stack, and the device windows.
pub open spec fn rx_range_clear(map: MemoryMap, s: u64, e: u64) -> bool {
    &&& pages_disjoint(s, e, map.heap_start, (map.heap_start + map.heap_size) as u64)
    &&& pages_disjoint(s, e, map.data_start, map.data_end)
    &&& pages_disjoint(s, e, map.bss_start, map.bss_end)
    &&& pages_disjoint(s, e, map.stack_start, map.stack_end)
    &&& pages_disjoint(s, e, UART_BASE, (UART_BASE + PAGE_SIZE) as u64)
    &&& pages_disjoint(s, e, CLINT_MSIP, (CLINT_MSIP + PAGE_SIZE) as u64)
    &&& pages_disjoint(s, e, CLINT_MTIMECMP, (CLINT_MTIMECMP + PAGE_SIZE) as u64)
    &&& pages_disjoint(s, e, CLINT_MTIME, (CLINT_MTIME + PAGE_SIZE) as u64)
    &&& pages_disjoint(s, e, PLIC_BASE, PLIC_END)
    &&& pages_disjoint(s, e, PLIC_CTX_BASE, PLIC_CTX_END)
}

/// Every address of `[s, e)` (already page-rounded bounds) translates to
/// itself with permission bits `bits`.
pub open spec fn id_mapped(t: Table, s: int, e: int, bits: u64) -> bool {
    forall|v: u64| s <= v < e ==> translate(t, v) == Some(Mapping { pa: v, bits })
}

/// `v` lies in one of the ranges the boot path maps.
pub open spec fn in_boot_ranges(map: MemoryMap, b: BootState, v: u64) -> bool {
    ||| map.heap_start <= v < b.frames.base  // allocator state table
    ||| b.heap.start <= v < b.heap.start + HEAP_PAGES * PAGE_SIZE  // heap data
    ||| page_down(map.text_start) <= v < page_up(map.text_end)
    ||| page_down(map.rodata_start) <= v < page_up(map.rodata_end)
    ||| page_down(map.data_start) <= v < page_up(map.data_end)
    ||| page_down(map.bss_start) <= v < page_up(map.bss_end)
    ||| page_down(map.stack_start) <= v < page_up(map.stack_end)
    ||| UART_BASE <= v < UART_BASE + PAGE_SIZE
    ||| CLINT_MSIP <= v < CLINT_MSIP + PAGE_SIZE
    ||| CLINT_MTIMECMP <= v < CLINT_MTIMECMP + PAGE_SIZE
    ||| CLINT_MTIME <= v < CLINT_MTIME + PAGE_SIZE
    ||| PLIC_BASE <= v < page_up(PLIC_END)
    ||| PLIC_CTX_BASE <= v < PLIC_CTX_END
    ||| b.trap_stack_top - PAGE_SIZE <= v < b.trap_stack_top  // trap stack
    ||| b.trap_frame_addr <= v < b.trap_frame_addr + PAGE_SIZE  // trap context block
}

/// Boot sequence for the boot hart.
///
/// Initializes the frame allocator over the reserved heap region, grants
/// the kernel heap its pages, allocates the root table's frame and a
/// dedicated trap stack and trap-context frame, identity-maps (in order)
/// the heap data region, the allocator's state table, the executable and
/// read-only sections (read-execute), the writable sections and kernel
/// stack (read-write), the UART, core-local-interruptor and external
/// interrupt controller windows, the trap stack and the trap-context frame,
/// and finally computes the translation control value and records it in the
/// trap context block. The contract gives the translation of every address:
/// identity with the requested bits inside the listed ranges, nothing
/// anywhere else.
#[verifier::rlimit(100)]
#[verifier::loop_isolation(false)]
pub fn kinit(map: &MemoryMap) -> (r: BootState)
    requires
        map.heap_start % PAGE_SIZE == 0,
        map.heap_start + map.heap_size <= VA_TOP,
        fa_capacity(map.heap_size as int) >= BOOT_FRAMES,
        map.text_start <= map.text_end <= VA_TOP,
        map.rodata_start <= map.rodata_end <= VA_TOP,
        map.data_start <= map.data_end <= VA_TOP,
        map.bss_start <= map.bss_end <= VA_TOP,
        map.stack_start <= map.stack_end <= VA_TOP,
        rx_range_clear(*map, map.text_start, map.text_end),
        rx_range_clear(*map, map.rodata_start, map.rodata_end),
    ensures
        r.frames.wf(),
        r.heap.wf(),
        crate::page::wf_table(r.root, 2),
        crate::page::fine_table(r.root, 2),
        r.frames.base == map.heap_start + ((map.heap_size as int / (PAGE_SIZE as int)
            + PAGE_SIZE - 1) / (PAGE_SIZE as int)) * PAGE_SIZE,
        r.heap.start == r.frames.base,
        r.root_addr == r.frames.base + HEAP_PAGES * PAGE_SIZE,
        r.trap_stack_top == r.frames.base + (HEAP_PAGES + 2) * PAGE_SIZE,
        r.trap_frame_addr == r.frames.base + (HEAP_PAGES + 2) * PAGE_SIZE,
        r.satp == (8u64 << 60) | (r.root_addr >> 12),
        r.trap_frame.wf(),
        r.trap_frame.satp == r.satp,
        r.trap_frame.hart_id == 0,
        r.trap_frame.trap_stack == r.trap_stack_top,
        // the first BOOT_FRAMES frames are taken, the rest are free
        forall|j: int| 0 <= j < BOOT_FRAMES ==> r.frames.states@[j] != FrameState::Free,
        forall|j: int|
            BOOT_FRAMES <= j < r.frames.capacity() ==> r.frames.states@[j] == FrameState::Free,
        // the heap starts as one free block spanning its whole region
        r.heap.blocks@.len() == 1,
        (r.heap.blocks@[0] == crate::kmem::Block {
            addr: r.heap.start,
            size: (HEAP_PAGES * PAGE_SIZE - crate::kmem::DESC_SIZE) as u64,
            taken: false,
        }),
        // what the finished table translates, range by range
        id_mapped(r.root, r.heap.start as int, r.heap.start + HEAP_PAGES * PAGE_SIZE,
            ENTRY_READ_WRITE),
        id_mapped(r.root, map.heap_start as int, r.frames.base as int, ENTRY_READ_WRITE),
        id_mapped(r.root, page_down(map.text_start), page_up(map.text_end),
            ENTRY_READ_EXECUTE),
        id_mapped(r.root, page_down(map.rodata_start), page_up(map.rodata_end),
            ENTRY_READ_EXECUTE),
        id_mapped(r.root, page_down(map.data_start), page_up(map.data_end), ENTRY_READ_WRITE),
        id_mapped(r.root, page_down(map.bss_start), page_up(map.bss_end), ENTRY_READ_WRITE),
        id_mapped(r.root, page_down(map.stack_start), page_up(map.stack_end),
            ENTRY_READ_WRITE),
        id_mapped(r.root, UART_BASE as int, UART_BASE + PAGE_SIZE, ENTRY_READ_WRITE),
        id_mapped(r.root, CLINT_MSIP as int, CLINT_MSIP + PAGE_SIZE, ENTRY_READ_WRITE),
        id_mapped(r.root, CLINT_MTIMECMP as int, CLINT_MTIMECMP + PAGE_SIZE, ENTRY_READ_WRITE),
        id_mapped(r.root, CLINT_MTIME as int, CLINT_MTIME + PAGE_SIZE, ENTRY_READ_WRITE),
        id_mapped(r.root, PLIC_BASE as int, page_up(PLIC_END), ENTRY_READ_WRITE),
        id_mapped(r.root, PLIC_CTX_BASE as int, PLIC_CTX_END as int, ENTRY_READ_WRITE),
        id_mapped(r.root, r.trap_stack_top - PAGE_SIZE, r.trap_stack_top as int,
            ENTRY_READ_WRITE),
        id_mapped(r.root, r.trap_frame_addr as int, r.trap_frame_addr + PAGE_SIZE,
            ENTRY_READ_WRITE),
        // and nothing else translates
        forall|v: u64|
            v < VA_TOP && !in_boot_ranges(*map, r, v) ==> (translate(r.root, v) is None),
{
    let mut fa = FrameAllocator::new(map.heap_start, map.heap_size);
    let ghost s0 = fa.states@;
    let ghost cap = fa.capacity();
    let base = fa.base;

    // heap: 64 pages at frames [0, 64)
    proof {
        assert(free_run(s0, 0, HEAP_PAGES as int));
        assert(is_first_fit(s0, 0, HEAP_PAGES as int));
    }
    let heap_opt = KernelHeap::init(&mut fa, HEAP_PAGES as usize);
    let heap = match heap_opt {
        Some(h) => h,
        None => {
            proof {
                assert(false);
            }
            unreached()
        },
    };
    let ghost s1 = fa.states@;
    proof {
        assert(s1 == mark_allocated(s0, 0, HEAP_PAGES as int));
    }

    // root page table: one frame at 64
    proof {
        assert(s1[HEAP_PAGES as int] == FrameState::Free);
        assert(free_run(s1, HEAP_PAGES as int, 1));
        assert forall|k: int| 0 <= k < HEAP_PAGES implies !free_run(s1, k, 1) by {
            assert(s1[k] != FrameState::Free);
        }
        assert(is_first_fit(s1, HEAP_PAGES as int, 1));
    }
    let root_opt = fa.allocate(1);
    let root_addr = match root_opt {
        Some(a) => a,
        None => {
            proof {
                assert(false);
            }
            unreached()
        },
    };
    let ghost s2 = fa.states@;
    proof {
        assert(s2 == mark_allocated(s1, HEAP_PAGES as int, 1));
    }

    // trap stack: one frame at 65
    proof {
        assert(s2[HEAP_PAGES + 1] == FrameState::Free);
        assert(free_run(s2, HEAP_PAGES + 1, 1));
        assert forall|k: int| 0 <= k <= HEAP_PAGES implies !free_run(s2, k, 1) by {
            assert(s2[k] != FrameState::Free);
        }
        assert(is_first_fit(s2, HEAP_PAGES + 1, 1));
    }
    let ts_opt = fa.allocate(1);
    let ts_base = match ts_opt {
        Some(a) => a,
        None => {
            proof {
                assert(false);
            }
            unreached()
        },
    };
    let ghost s3 = fa.states@;
    proof {
        assert(s3 == mark_allocated(s2, HEAP_PAGES + 1, 1));
    }

    // trap context block: one frame at 66
    proof {
        assert(s3[HEAP_PAGES + 2] == FrameState::Free);
        assert(free_run(s3, HEAP_PAGES + 2, 1));
        assert forall|k: int| 0 <= k <= HEAP_PAGES + 1 implies !free_run(s3, k, 1) by {
            assert(s3[k] != FrameState::Free);
        }
        assert(is_first_fit(s3, HEAP_PAGES + 2, 1));
    }
    let tf_opt = fa.allocate(1);
    let tf_addr = match tf_opt {
        Some(a) => a,
        None => {
            proof {
                assert(false);
            }
            unreached()
        },
    };
    let ghost s4 = fa.states@;
    proof {
        assert(s4 == mark_allocated(s3, HEAP_PAGES + 2, 1));
        assert(fa.base + fa.mem@.len() <= map.heap_start + map.heap_size);
    }

    let mut root = Table::new();
    proof {
        assert(ENTRY_READ_WRITE & 0xe != 0 && ENTRY_READ_EXECUTE & 0xe != 0) by (bit_vector);
    }

    // identity-map, in order: heap data, allocator state table, kernel
    // sections, kernel stack, device windows, trap stack, trap context
    let heap_end: u64 = heap.start + HEAP_PAGES * PAGE_SIZE;
    id_map_range(&mut root, heap.start, heap_end, ENTRY_READ_WRITE);
    id_map_range(&mut root, map.heap_start, base, ENTRY_READ_WRITE);
    id_map_range(&mut root, map.text_start, map.text_end, ENTRY_READ_EXECUTE);
    id_map_range(&mut root, map.rodata_start, map.rodata_end, ENTRY_READ_EXECUTE);
    id_map_range(&mut root, map.data_start, map.data_end, ENTRY_READ_WRITE);
    id_map_range(&mut root, map.bss_start, map.bss_end, ENTRY_READ_WRITE);
    id_map_range(&mut root, map.stack_start, map.stack_end, ENTRY_READ_WRITE);
    id_map_range(&mut root, UART_BASE, UART_BASE + PAGE_SIZE, ENTRY_READ_WRITE);
    id_map_range(&mut root, CLINT_MSIP, CLINT_MSIP + PAGE_SIZE, ENTRY_READ_WRITE);
    id_map_range(&mut root, CLINT_MTIMECMP, CLINT_MTIMECMP + PAGE_SIZE, ENTRY_READ_WRITE);
    id_map_range(&mut root, CLINT_MTIME, CLINT_MTIME + PAGE_SIZE, ENTRY_READ_WRITE);
    id_map_range(&mut root, PLIC_BASE, PLIC_END, ENTRY_READ_WRITE);
    id_map_range(&mut root, PLIC_CTX_BASE, PLIC_CTX_END, ENTRY_READ_WRITE);
    let ts_top: u64 = ts_base + PAGE_SIZE;
    id_map_range(&mut root, ts_base, ts_top, ENTRY_READ_WRITE);
    id_map_range(&mut root, tf_addr, tf_addr + PAGE_SIZE, ENTRY_READ_WRITE);

    // the translation control value: Sv39, address space 0, the root
    // table's physical page number
    let satp = build_satp(SatpMode::Sv39, 0, root_addr);
    proof {
        assert((8u64 << 60) | ((0u64 & 0xffff) << 44) | (root_addr >> 12) == (8u64 << 60) | (
        root_addr >> 12)) by (bit_vector);
    }

    let mut tf = TrapFrame::new();
    tf.satp = satp;
    tf.trap_stack = ts_top;
    tf.hart_id = 0;

    BootState {
        frames: fa,
        heap,
        root,
        root_addr,
        trap_frame: tf,
        trap_stack_top: ts_top,
        trap_frame_addr: tf_addr,
        satp,
    }
}

} // verus!
