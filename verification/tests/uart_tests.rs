use riscv_boot_core::uart::{Uart, UART_DIVISOR};

#[test]
fn new_handle_is_unconfigured() {
    let u = Uart::new(0x1000_0000);
    assert_eq!(u.base_address, 0x1000_0000);
    assert_eq!(u.lcr, 0);
    assert_eq!(u.fcr, 0);
    assert_eq!(u.ier, 0);
    assert_eq!(u.divisor, 0);
    assert!(u.rx.is_empty());
    assert!(u.tx.is_empty());
}

#[test]
fn init_programs_the_device() {
    let mut u = Uart::new(0x1000_0000);
    u.init();
    // word length 8 bits, divisor latch closed again
    assert_eq!(u.lcr, 0b11);
    // FIFO enabled
    assert_eq!(u.fcr, 1);
    // received-data-available interrupt enabled
    assert_eq!(u.ier, 1);
    assert_eq!(u.divisor, UART_DIVISOR);
    assert_eq!(u.divisor, 592);
}

#[test]
fn get_polls_data_ready() {
    let mut u = Uart::new(0x1000_0000);
    // no data ready
    assert_eq!(u.get(), None);
    u.receive(b'a');
    u.receive(b'b');
    // bytes come back in arrival order, consumed one at a time
    assert_eq!(u.get(), Some(b'a'));
    assert_eq!(u.get(), Some(b'b'));
    assert_eq!(u.get(), None);
}

#[test]
fn put_appends_to_the_transmit_stream() {
    let mut u = Uart::new(0x1000_0000);
    u.put(b'h');
    u.put(b'i');
    assert_eq!(u.tx, vec![b'h', b'i']);
    u.write_bytes(&vec![b'!', b'\r', b'\n']);
    assert_eq!(u.tx, vec![b'h', b'i', b'!', b'\r', b'\n']);
}
