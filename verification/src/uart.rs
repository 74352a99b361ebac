//! UART (NS16550-style) device model.
//!
//! The driver is modeled as a capability object over the device's
//! registers: the line control, FIFO control, interrupt enable and divisor
//! latch registers it programs, and the receive/transmit byte streams. The
//! real device sits behind memory-mapped registers at `base_address`; here
//! the registers are explicit fields so that every operation the driver
//! performs on them is specified and proved.

use vstd::prelude::*;

verus! {

/// Divisor the driver programs for the 2400-baud signalling rate derived
/// from the 22.729 MHz reference clock.
pub const UART_DIVISOR: u16 = 592;

/// UART driver state: the device's base address, its configuration
/// registers, and the modeled receive/transmit streams. `rx` holds bytes
/// the wire delivered that the driver has not read yet, in arrival order;
/// `tx` holds every byte the driver has sent.
pub struct Uart {
    pub base_address: u64,
    pub lcr: u8,
    pub fcr: u8,
    pub ier: u8,
    pub divisor: u16,
    pub rx: Vec<u8>,
    pub tx: Vec<u8>,
}

impl Uart {
    /// A driver handle for the device at `base_address`, with the device
    /// still unconfigured and both streams empty.
    pub fn new(base_address: u64) -> (r: Uart)
        ensures
            r.base_address == base_address,
            r.lcr == 0,
            r.fcr == 0,
            r.ier == 0,
            r.divisor == 0,
            r.rx@ == Seq::<u8>::empty(),
            r.tx@ == Seq::<u8>::empty(),
    {
        Uart {
            base_address,
            lcr: 0,
            fcr: 0,
            ier: 0,
            divisor: 0,
            rx: Vec::new(),
            tx: Vec::new(),
        }
    }

    /// Programs the device: word length 8 bits (line control 0b11, with the
    /// divisor latch closed again at the end), FIFO enabled, the
    /// received-data-available interrupt enabled, and the divisor set for
    /// the configured baud rate.
    pub fn init(&mut self)
        ensures
            final(self).lcr == 3,
            final(self).fcr == 1,
            final(self).ier == 1,
            final(self).divisor == UART_DIVISOR,
            final(self).base_address == old(self).base_address,
            final(self).rx@ == old(self).rx@,
            final(self).tx@ == old(self).tx@,
    {
        // word length 8 bits
        self.lcr = 0b11;
        // enable the FIFO
        self.fcr = 1;
        // enable the received-data-available interrupt
        self.ier = 1;
        // open the divisor latch, program the divisor, close the latch
        self.lcr = 0b11 | 1 << 7;
        self.divisor = UART_DIVISOR;
        self.lcr = 0b11;
    }

    /// Sends one byte: it is appended to the transmit stream.
    pub fn put(&mut self, c: u8)
        ensures
            final(self).tx@ == old(self).tx@.push(c),
            final(self).rx@ == old(self).rx@,
            final(self).base_address == old(self).base_address,
            final(self).lcr == old(self).lcr,
            final(self).fcr == old(self).fcr,
            final(self).ier == old(self).ier,
            final(self).divisor == old(self).divisor,
    {
        self.tx.push(c);
    }

    /// Polls for one received byte: `None` when the line status shows no
    /// data ready (the receive stream is empty), otherwise the oldest
    /// unread byte, which is consumed.
    pub fn get(&mut self) -> (r: Option<u8>)
        ensures
            final(self).base_address == old(self).base_address,
            final(self).tx@ == old(self).tx@,
            final(self).lcr == old(self).lcr,
            final(self).fcr == old(self).fcr,
            final(self).ier == old(self).ier,
            final(self).divisor == old(self).divisor,
            match r {
                Some(c) => old(self).rx@.len() > 0 && c == old(self).rx@[0] && final(self).rx@
                    == old(self).rx@.subrange(1, old(self).rx@.len() as int),
                None => old(self).rx@.len() == 0 && final(self).rx@ == old(self).rx@,
            },
    {
        if self.rx.len() == 0 {
            None
        } else {
            let c = self.rx.remove(0);
            Some(c)
        }
    }

    /// The wire delivers one byte: it joins the unread receive stream.
    pub fn receive(&mut self, c: u8)
        ensures
            final(self).rx@ == old(self).rx@.push(c),
            final(self).tx@ == old(self).tx@,
            final(self).base_address == old(self).base_address,
            final(self).lcr == old(self).lcr,
            final(self).fcr == old(self).fcr,
            final(self).ier == old(self).ier,
            final(self).divisor == old(self).divisor,
    {
        self.rx.push(c);
    }

    /// Sends every byte of `data` in order.
    pub fn write_bytes(&mut self, data: &Vec<u8>)
        ensures
            final(self).tx@ == old(self).tx@ + data@,
            final(self).rx@ == old(self).rx@,
            final(self).base_address == old(self).base_address,
            final(self).lcr == old(self).lcr,
            final(self).fcr == old(self).fcr,
            final(self).ier == old(self).ier,
            final(self).divisor == old(self).divisor,
    {
        let n = data.len();
        let mut i: usize = 0;
        while i < n
            invariant
                i <= n,
                n == data@.len(),
                self.tx@ == old(self).tx@ + data@.subrange(0, i as int),
                self.rx@ == old(self).rx@,
                self.base_address == old(self).base_address,
                self.lcr == old(self).lcr,
                self.fcr == old(self).fcr,
                self.ier == old(self).ier,
                self.divisor == old(self).divisor,
            decreases n - i,
        {
            let c = data[i];
            self.put(c);
            proof {
                assert(self.tx@ =~= old(self).tx@ + data@.subrange(0, i + 1));
            }
            i = i + 1;
        }
        proof {
            assert(data@.subrange(0, n as int) =~= data@);
        }
    }
}

} // verus!
