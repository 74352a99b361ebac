//! Trap dispatcher.
//!
//! The single entry point taken on every exception or interrupt. The top
//! bit of the cause value selects asynchronous (interrupt) or synchronous
//! (exception) handling; the low twelve bits select the handler. The
//! dispatcher returns the program counter to resume at: the faulting
//! instruction's successor for environment calls and page faults, the
//! unmodified program counter for interrupts. Causes with no handler and
//! illegal instructions are fatal: they are reported as a distinguished
//! error that the caller turns into a permanent halt.

use vstd::prelude::*;

verus! {

use crate::plic::Plic;
use crate::uart::Uart;

/// Interval added to the current hardware time on every timer interrupt:
/// at the platform's 10 MHz time base, one second.
pub const MTIME_TICK: u64 = 10_000_000;

/// Interrupt source number of the UART on this platform.
pub const UART_SOURCE: u32 = 10;

/// Machine state the dispatcher reads and writes: the free-running time
/// counter, the timer compare register, the interrupt controller and the
/// UART driver.
pub struct MachineState {
    pub mtime: u64,
    pub mtimecmp: u64,
    pub plic: Plic,
    pub uart: Uart,
}

/// A fatal trap: no safe resumption exists. The caller halts the hart
/// after reporting the hart and cause.
#[derive(Clone, Copy, PartialEq, Eq, Structural, Debug)]
pub struct TrapFatal {
    pub hart: u64,
    pub cause: u64,
    pub epc: u64,
    pub tval: u64,
}

/// The cause value's top bit: set for asynchronous traps (interrupts).
pub open spec fn is_async_cause(cause: u64) -> bool {
    (cause >> 63) & 1 == 1
}

/// The cause number: the low twelve bits of the cause value.
pub open spec fn cause_num_of(cause: u64) -> u64 {
    cause & 0xfff
}

/// Terminal echo for one received byte: backspace and delete echo a
/// destructive backspace (backspace, space, backspace), newline and
/// carriage return echo a line break, everything else echoes verbatim.
pub open spec fn echo_of(c: u8) -> Seq<u8> {
    if c == 8 || c == 127 {
        seq![8u8, 32u8, 8u8]
    } else if c == 10 || c == 13 {
        seq![13u8, 10u8]
    } else {
        seq![c]
    }
}

/// The two controllers agree in every observable field.
pub open spec fn plic_eq(a: Plic, b: Plic) -> bool {
    &&& a.priorities@ == b.priorities@
    &&& a.enabled@ == b.enabled@
    &&& a.pending@ == b.pending@
    &&& a.claimed@ == b.claimed@
    &&& a.threshold == b.threshold
}

/// The two UART states agree in configuration and both streams.
pub open spec fn uart_eq(a: Uart, b: Uart) -> bool {
    &&& uart_regs_eq(a, b)
    &&& a.rx@ == b.rx@
    &&& a.tx@ == b.tx@
}

/// The two UART states agree in base address and configuration registers.
pub open spec fn uart_regs_eq(a: Uart, b: Uart) -> bool {
    &&& a.base_address == b.base_address
    &&& a.lcr == b.lcr
    &&& a.fcr == b.fcr
    &&& a.ier == b.ier
    &&& a.divisor == b.divisor
}

/// Nothing observable changed.
pub open spec fn ms_eq(a: MachineState, b: MachineState) -> bool {
    &&& a.mtime == b.mtime
    &&& a.mtimecmp == b.mtimecmp
    &&& plic_eq(a.plic, b.plic)
    &&& uart_eq(a.uart, b.uart)
}

/// Effect of one external-interrupt round: claim the best pending source,
/// service it (for the UART source: read one byte, if any, and echo it),
/// and complete the claim so the source can fire again. When nothing can
/// be claimed, nothing changes.
pub open spec fn ext_int_effect(o: MachineState, n: MachineState) -> bool {
    &&& n.mtime == o.mtime
    &&& n.mtimecmp == o.mtimecmp
    &&& ((forall|s: int| !o.plic.candidate(s)) ==> plic_eq(o.plic, n.plic) && uart_eq(
        o.uart,
        n.uart,
    ))
    &&& forall|s: int|
        #[trigger] o.plic.is_best_candidate(s) ==> {
            &&& n.plic.pending@ == o.plic.pending@.update(s, false)
            &&& n.plic.claimed@ == o.plic.claimed@
            &&& n.plic.priorities@ == o.plic.priorities@
            &&& n.plic.enabled@ == o.plic.enabled@
            &&& n.plic.threshold == o.plic.threshold
            &&& if s == UART_SOURCE {
                if o.uart.rx@.len() == 0 {
                    uart_eq(o.uart, n.uart)
                } else {
                    &&& uart_regs_eq(o.uart, n.uart)
                    &&& n.uart.rx@ == o.uart.rx@.subrange(1, o.uart.rx@.len() as int)
                    &&& n.uart.tx@ == o.uart.tx@ + echo_of(o.uart.rx@[0])
                }
            } else {
                uart_eq(o.uart, n.uart)
            }
        }
}

/// Echoes one received byte with terminal translation.
fn echo_byte(u: &mut Uart, c: u8)
    ensures
        final(u).tx@ == old(u).tx@ + echo_of(c),
        final(u).rx@ == old(u).rx@,
        uart_regs_eq(*old(u), *final(u)),
{
    if c == 8 || c == 127 {
        // destructive backspace: back up, blank the cell, back up again
        u.put(8);
        u.put(32);
        u.put(8);
        proof {
            assert(u.tx@ =~= old(u).tx@ + echo_of(c));
        }
    } else if c == 10 || c == 13 {
        // line break
        u.put(13);
        u.put(10);
        proof {
            assert(u.tx@ =~= old(u).tx@ + echo_of(c));
        }
    } else {
        u.put(c);
        proof {
            assert(u.tx@ =~= old(u).tx@ + echo_of(c));
        }
    }
}

/// Dispatches one trap and returns the program counter to resume at, or a
/// fatal outcome for causes with no safe resumption.
///
/// Asynchronous causes: 3 (software interrupt, log only), 7 (timer: the
/// compare register is re-armed to the current time plus one tick, so every
/// timer trap reschedules the next one), 11 (external interrupt: one
/// claim/service/complete round against the controller). Synchronous
/// causes: 8, 9, 11 (environment calls) and 12, 13, 15 (page faults)
/// resume at the following instruction; 2 (illegal instruction) and every
/// cause outside these tables is fatal. Interrupts resume at the
/// unmodified program counter.
pub fn m_trap(ms: &mut MachineState, epc: u64, tval: u64, cause: u64, hart: u64) -> (r: Result<
    u64,
    TrapFatal,
>)
    requires
        old(ms).plic.wf(),
        old(ms).plic.sources() <= u32::MAX,
        is_async_cause(cause) && cause_num_of(cause) == 7 ==> old(ms).mtime + MTIME_TICK
            <= u64::MAX,
        !is_async_cause(cause) && (cause_num_of(cause) == 8 || cause_num_of(cause) == 9
            || cause_num_of(cause) == 11 || cause_num_of(cause) == 12 || cause_num_of(cause) == 13
            || cause_num_of(cause) == 15) ==> epc + 4 <= u64::MAX,
    ensures
        final(ms).plic.wf(),
        final(ms).plic.sources() == old(ms).plic.sources(),
        is_async_cause(cause) ==> {
            let num = cause_num_of(cause);
            &&& num == 3 ==> r == Result::<u64, TrapFatal>::Ok(epc) && ms_eq(*old(ms), *final(ms))
            &&& num == 7 ==> {
                &&& r == Result::<u64, TrapFatal>::Ok(epc)
                &&& final(ms).mtimecmp == old(ms).mtime + MTIME_TICK
                &&& final(ms).mtime == old(ms).mtime
                &&& plic_eq(old(ms).plic, final(ms).plic)
                &&& uart_eq(old(ms).uart, final(ms).uart)
            }
            &&& num == 11 ==> r == Result::<u64, TrapFatal>::Ok(epc) && ext_int_effect(
                *old(ms),
                *final(ms),
            )
            &&& num != 3 && num != 7 && num != 11 ==> r == Result::<u64, TrapFatal>::Err(
                TrapFatal { hart, cause, epc, tval },
            ) && ms_eq(*old(ms), *final(ms))
        },
        !is_async_cause(cause) ==> {
            let num = cause_num_of(cause);
            &&& (num == 8 || num == 9 || num == 11 || num == 12 || num == 13 || num == 15) ==> r
                == Result::<u64, TrapFatal>::Ok((epc + 4) as u64) && ms_eq(*old(ms), *final(ms))
            &&& !(num == 8 || num == 9 || num == 11 || num == 12 || num == 13 || num == 15) ==> r
                == Result::<u64, TrapFatal>::Err(TrapFatal { hart, cause, epc, tval }) && ms_eq(
                *old(ms),
                *final(ms),
            )
        },
{
    let is_async = (cause >> 63) & 1 == 1;
    let cause_num = cause & 0xfff;
    if is_async {
        if cause_num == 3 {
            // software interrupt: diagnostic only
            Ok(epc)
        } else if cause_num == 7 {
            // timer: re-arm the next deadline one tick from now
            ms.mtimecmp = ms.mtime + MTIME_TICK;
            Ok(epc)
        } else if cause_num == 11 {
            // external interrupt: claim, service, complete
            let claimed = ms.plic.next();
            match claimed {
                None => Ok(epc),
                Some(id) => {
                    proof {
                        assert forall|s: int| old(ms).plic.is_best_candidate(s) implies s
                            == id as int by {}
                    }
                    if id == UART_SOURCE {
                        let got = ms.uart.get();
                        match got {
                            Some(c) => echo_byte(&mut ms.uart, c),
                            None => {},
                        }
                    }
                    ms.plic.complete(id as usize);
                    proof {
                        assert(ms.plic.claimed@ =~= old(ms).plic.claimed@);
                    }
                    Ok(epc)
                },
            }
        } else {
            Err(TrapFatal { hart, cause, epc, tval })
        }
    } else {
        if cause_num == 2 {
            // illegal instruction: fatal
            Err(TrapFatal { hart, cause, epc, tval })
        } else if cause_num == 8 || cause_num == 9 || cause_num == 11 {
            // environment call: resume after the call instruction
            Ok(epc + 4)
        } else if cause_num == 12 || cause_num == 13 || cause_num == 15 {
            // page fault: log and step over the faulting instruction
            Ok(epc + 4)
        } else {
            Err(TrapFatal { hart, cause, epc, tval })
        }
    }
}

} // verus!
