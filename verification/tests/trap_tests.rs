use riscv_boot_core::plic::Plic;
use riscv_boot_core::trap::{m_trap, MachineState, MTIME_TICK};
use riscv_boot_core::uart::Uart;

const ASYNC: u64 = 1 << 63;

fn machine() -> MachineState {
    let mut plic = Plic::new(32);
    plic.set_threshold(0);
    plic.enable(10);
    plic.set_priority(10, 1);
    MachineState { mtime: 0, mtimecmp: 0, plic, uart: Uart::new(0x1000_0000) }
}

#[test]
fn timer_rearms_by_exactly_one_tick() {
    let mut ms = machine();
    ms.mtime = 1_000;
    let pc = m_trap(&mut ms, 0x8000_0000, 0, ASYNC | 7, 0).unwrap();
    // the interrupted instruction is retried: the pc is unchanged
    assert_eq!(pc, 0x8000_0000);
    let first = ms.mtimecmp;
    assert_eq!(first, 1_000 + MTIME_TICK);
    // time reaches the deadline and the timer fires again
    ms.mtime = first;
    let pc2 = m_trap(&mut ms, 0x8000_0004, 0, ASYNC | 7, 0).unwrap();
    assert_eq!(pc2, 0x8000_0004);
    // each invocation produces a compare value strictly greater than the
    // previous by exactly the tick interval
    assert_eq!(ms.mtimecmp, first + MTIME_TICK);
    assert!(ms.mtimecmp > first);
}

#[test]
fn user_ecall_resumes_after_the_call() {
    let mut ms = machine();
    let p: u64 = 0x8000_1230;
    assert_eq!(m_trap(&mut ms, p, 0, 8, 0).unwrap(), p + 4);
}

#[test]
fn supervisor_and_machine_ecalls_step_forward() {
    let mut ms = machine();
    assert_eq!(m_trap(&mut ms, 100, 0, 9, 0).unwrap(), 104);
    assert_eq!(m_trap(&mut ms, 200, 0, 11, 0).unwrap(), 204);
}

#[test]
fn page_faults_resume_at_next_instruction() {
    let mut ms = machine();
    for cause in [12u64, 13, 15] {
        assert_eq!(m_trap(&mut ms, 0x1000, 0xdead, cause, 0).unwrap(), 0x1004);
    }
}

#[test]
fn illegal_instruction_is_fatal() {
    let mut ms = machine();
    let e = m_trap(&mut ms, 0x42, 0xbad, 2, 3).unwrap_err();
    assert_eq!(e.hart, 3);
    assert_eq!(e.cause, 2);
    assert_eq!(e.epc, 0x42);
    assert_eq!(e.tval, 0xbad);
}

#[test]
fn unknown_causes_are_fatal() {
    let mut ms = machine();
    assert!(m_trap(&mut ms, 0, 0, 1, 0).is_err());
    assert!(m_trap(&mut ms, 0, 0, ASYNC | 5, 0).is_err());
}

#[test]
fn software_interrupt_changes_nothing() {
    let mut ms = machine();
    ms.mtime = 77;
    assert_eq!(m_trap(&mut ms, 10, 0, ASYNC | 3, 0).unwrap(), 10);
    assert_eq!(ms.mtime, 77);
    assert_eq!(ms.uart.tx.len(), 0);
}

#[test]
fn external_interrupt_echoes_a_byte() {
    let mut ms = machine();
    ms.uart.receive(b'x');
    ms.plic.raise(10);
    let pc = m_trap(&mut ms, 500, 0, ASYNC | 11, 0).unwrap();
    assert_eq!(pc, 500);
    // the byte was consumed and echoed verbatim
    assert_eq!(ms.uart.rx.len(), 0);
    assert_eq!(ms.uart.tx, vec![b'x']);
    // the claim was completed: a later pending byte fires again
    ms.uart.receive(b'y');
    ms.plic.raise(10);
    m_trap(&mut ms, 500, 0, ASYNC | 11, 0).unwrap();
    assert_eq!(ms.uart.tx, vec![b'x', b'y']);
}

#[test]
fn backspace_echoes_destructively() {
    for c in [8u8, 127] {
        let mut ms = machine();
        ms.uart.receive(c);
        ms.plic.raise(10);
        m_trap(&mut ms, 0, 0, ASYNC | 11, 0).unwrap();
        assert_eq!(ms.uart.tx, vec![8, b' ', 8]);
    }
}

#[test]
fn newline_and_carriage_return_echo_a_line_break() {
    for c in [10u8, 13] {
        let mut ms = machine();
        ms.uart.receive(c);
        ms.plic.raise(10);
        m_trap(&mut ms, 0, 0, ASYNC | 11, 0).unwrap();
        assert_eq!(ms.uart.tx, vec![13, 10]);
    }
}

#[test]
fn external_interrupt_with_nothing_pending_is_quiet() {
    let mut ms = machine();
    assert_eq!(m_trap(&mut ms, 9, 0, ASYNC | 11, 0).unwrap(), 9);
    assert_eq!(ms.uart.tx.len(), 0);
}

#[test]
fn non_uart_source_is_completed_without_echo() {
    let mut ms = machine();
    ms.plic.enable(7);
    ms.plic.set_priority(7, 1);
    ms.plic.raise(7);
    m_trap(&mut ms, 0, 0, ASYNC | 11, 0).unwrap();
    assert_eq!(ms.uart.tx.len(), 0);
    // completed, not latched: it can fire again once pending
    ms.plic.raise(7);
    assert_eq!(ms.plic.next(), Some(7));
}
