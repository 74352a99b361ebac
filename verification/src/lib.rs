//! Early-boot core of a RISC-V supervisor-mode kernel, modeled and verified.
//!
//! The crate covers the virtual-memory subsystem (physical frame allocation,
//! kernel heap allocation, Sv39 page-table construction and address
//! translation) and the trap/interrupt machinery (trap dispatch, the external
//! interrupt controller's claim/complete protocol, the UART device model).
//!
//! Hardware state (device registers, the managed memory region) is modeled as
//! explicit owned data so that every operation on it can be specified and
//! proved; the thin unverified shell that touches real registers lives outside
//! this crate.

use vstd::prelude::*;

pub mod boot;
pub mod cpu;
pub mod frame;
pub mod kmem;
pub mod page;
pub mod plic;
pub mod trap;
pub mod uart;

verus! {

/// Size in bytes of one physical page frame, the allocation granularity of
/// the frame allocator and the finest page-table mapping granularity.
pub const PAGE_SIZE: u64 = 4096;

} // verus!
