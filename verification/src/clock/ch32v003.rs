use vstd::prelude::*;
use crate::clock::ClockGates;

verus! {

/// Clock state of the CH32V003: the core clock in hertz.
#[derive(Clone, Copy, PartialEq, Eq, Structural, Debug)]
pub struct Clocks {
    pub hclk: u32,
}

impl Clocks {
    /// Runs on the internal 8 MHz oscillator, which is on from reset, and
    /// turns on USART1 and port D.
    pub fn freeze(&mut self) -> (g: ClockGates)
        ensures
            final(self).hclk == 8_000_000,
            g == (ClockGates { apb1: 0, apb2: 16416 }),
    {
        let uart_pd: u32 = (1u32 << 14u32) | (1u32 << 5u32);
        assert((1u32 << 14u32) | (1u32 << 5u32) == 16416u32) by (bit_vector);
        self.hclk = 8_000_000;
        ClockGates { apb1: 0, apb2: uart_pd }
    }

    /// Clocks not yet set up: 0 Hz.
    pub fn default() -> (c: Clocks)
        ensures
            c.hclk == 0,
    {
        Clocks { hclk: 0 }
    }
}

} // verus!
