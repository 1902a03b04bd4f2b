//! The console byte sink.
//!
//! The kernel core never touches the device registers. It queues the bytes
//! that are meant for the console, in order, and whoever owns the hardware
//! drains the queue and puts them on the wire.

use vstd::prelude::*;
use vstd::string::StringSliceAdditionalSpecFns;

verus! {

/// Base address of the console device on the reference machine.
pub const UART_BASE: usize = 0x9000000;

/// A console device: where it lives, and the bytes that wait to be sent.
pub struct Uart {
    base_address: usize,
    pending: Vec<u8>,
}

impl View for Uart {
    type V = Seq<u8>;

    /// The bytes queued for the console, oldest first.
    closed spec fn view(&self) -> Seq<u8> {
        self.pending@
    }
}

impl Uart {
    /// The address that the device was created with.
    pub closed spec fn spec_base_address(&self) -> usize {
        self.base_address
    }

    /// A console at `base_address` with nothing queued.
    pub fn new(base_address: usize) -> (uart: Uart)
        ensures
            uart@ == Seq::<u8>::empty(),
            uart.spec_base_address() == base_address,
    {
        Uart { base_address, pending: Vec::new() }
    }

    /// The address of the device's data register.
    pub fn base_address(&self) -> (addr: usize)
        ensures
            addr == self.spec_base_address(),
    {
        self.base_address
    }

    /// Queues one byte behind everything already queued.
    pub fn write_byte(&mut self, byte: u8)
        ensures
            final(self)@ == old(self)@.push(byte),
            final(self).spec_base_address() == old(self).spec_base_address(),
    {
        self.pending.push(byte);
    }

    /// Queues `bytes`, in order, behind everything already queued.
    pub fn write_bytes(&mut self, bytes: &[u8])
        ensures
            final(self)@ == old(self)@ + bytes@,
            final(self).spec_base_address() == old(self).spec_base_address(),
    {
        let mut i: usize = 0;
        while i < bytes.len()
            invariant
                i <= bytes@.len(),
                self.pending@ == old(self).pending@ + bytes@.take(i as int),
                self.base_address == old(self).base_address,
            decreases bytes@.len() - i,
        {
            self.pending.push(bytes[i]);
            i += 1;
            assert(bytes@.take(i as int) == bytes@.take(i - 1).push(bytes@[i - 1]));
        }
        assert(bytes@.take(i as int) == bytes@);
    }

    /// Queues the UTF-8 bytes of `s`.
    pub fn write_str(&mut self, s: &str)
        ensures
            final(self)@ == old(self)@ + s.spec_bytes(),
            final(self).spec_base_address() == old(self).spec_base_address(),
    {
        self.write_bytes(s.as_bytes());
    }

    /// Hands out everything queued, oldest first, and leaves the queue empty.
    pub fn take_pending(&mut self) -> (bytes: Vec<u8>)
        ensures
            bytes@ == old(self)@,
            final(self)@ == Seq::<u8>::empty(),
            final(self).spec_base_address() == old(self).spec_base_address(),
    {
        let mut out: Vec<u8> = Vec::new();
        std::mem::swap(&mut out, &mut self.pending);
        out
    }
}

/// Creates the console of the reference machine.
pub fn init() -> (uart: Uart)
    ensures
        uart@ == Seq::<u8>::empty(),
        uart.spec_base_address() == UART_BASE,
{
    Uart::new(UART_BASE)
}

} // verus!
