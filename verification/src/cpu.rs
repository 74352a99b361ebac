//! Per-hart CPU state: the address-translation control value and the trap
//! context block.

use vstd::prelude::*;

verus! {

/// Address-translation mode selector written into the top bits of the
/// translation control register.
#[derive(Clone, Copy, PartialEq, Eq, Structural, Debug)]
pub enum SatpMode {
    /// No translation.
    Bare,
    /// Three-level, 39-bit virtual addressing (the mode this kernel uses).
    Sv39,
    /// Four-level, 48-bit virtual addressing (not used here).
    Sv48,
}

/// Numeric selector of a translation mode.
pub open spec fn satp_mode_value(m: SatpMode) -> u64 {
    match m {
        SatpMode::Bare => 0,
        SatpMode::Sv39 => 8,
        SatpMode::Sv48 => 9,
    }
}

/// Builds the translation control value: the mode selector in bits 63..60,
/// the address-space identifier in bits 59..44, and the root table's
/// physical page number (its address divided by the page size) below.
pub fn build_satp(mode: SatpMode, asid: u64, addr: u64) -> (r: u64)
    requires
        addr % 0x1000 == 0,
    ensures
        r == (satp_mode_value(mode) << 60) | ((asid & 0xffff) << 44) | (addr >> 12),
{
    let m: u64 = match mode {
        SatpMode::Bare => 0,
        SatpMode::Sv39 => 8,
        SatpMode::Sv48 => 9,
    };
    (m << 60) | ((asid & 0xffff) << 44) | (addr >> 12)
}

/// Per-hart trap context block: saved general-purpose registers, the
/// translation control value active on the hart, the top of the hart's
/// dedicated trap stack, and the hart identifier. One block exists per
/// hart for the kernel's whole run; it is populated step by step during
/// boot and never freed.
pub struct TrapFrame {
    pub regs: Vec<u64>,
    pub satp: u64,
    pub trap_stack: u64,
    pub hart_id: u64,
}

impl TrapFrame {
    /// Thirty-two saved register slots.
    pub open spec fn wf(self) -> bool {
        self.regs@.len() == 32
    }

    /// A zeroed context block.
    pub fn new() -> (r: TrapFrame)
        ensures
            r.wf(),
            forall|i: int| 0 <= i < 32 ==> #[trigger] r.regs@[i] == 0,
            r.satp == 0,
            r.trap_stack == 0,
            r.hart_id == 0,
    {
        let mut regs: Vec<u64> = Vec::new();
        let mut i: usize = 0;
        while i < 32
            invariant
                i <= 32,
                regs@.len() == i,
                forall|k: int| 0 <= k < i ==> #[trigger] regs@[k] == 0,
            decreases 32 - i,
        {
            regs.push(0);
            i = i + 1;
        }
        TrapFrame { regs, satp: 0, trap_stack: 0, hart_id: 0 }
    }
}

/// Boot-time setup for a secondary hart: records the hart identifier in
/// that hart's trap context block. (Secondary harts take their translation
/// control value and trap stack later, once allocation is made safe for
/// them; only the identifier is filled in here, as on the boot path.)
pub fn kinit_hart(frames: &mut Vec<TrapFrame>, hartid: usize)
    requires
        hartid < old(frames)@.len(),
    ensures
        final(frames)@.len() == old(frames)@.len(),
        final(frames)@[hartid as int].hart_id == hartid,
        final(frames)@[hartid as int].regs@ == old(frames)@[hartid as int].regs@,
        final(frames)@[hartid as int].satp == old(frames)@[hartid as int].satp,
        final(frames)@[hartid as int].trap_stack == old(frames)@[hartid as int].trap_stack,
        forall|i: int|
            0 <= i < old(frames)@.len() && i != hartid ==> final(frames)@[i] == old(frames)@[i],
{
    let f = frames.remove(hartid);
    let f2 = TrapFrame {
        regs: f.regs,
        satp: f.satp,
        trap_stack: f.trap_stack,
        hart_id: hartid as u64,
    };
    frames.insert(hartid, f2);
}

} // verus!
