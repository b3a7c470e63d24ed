use vstd::prelude::*;
use crate::clock::ClockGates;

verus! {

/// Clock state of the CH32X035: the core clock in hertz.
#[derive(Clone, Copy, PartialEq, Eq, Structural, Debug)]
pub struct Clocks {
    pub hclk: usize,
}

impl Clocks {
    /// Turns on USART2, ports A and B and SPI1, and runs the core at 48 MHz.
    pub fn freeze(&mut self) -> (g: ClockGates)
        ensures
            final(self).hclk == 48_000_000,
            g == (ClockGates { apb1: 131072, apb2: 4108 }),
    {
        let usart2: u32 = 1u32 << 17u32;
        let ports_spi: u32 = (1u32 << 3u32) | (1u32 << 2u32) | (1u32 << 12u32);
        assert(1u32 << 17u32 == 131072u32) by (bit_vector);
        assert((1u32 << 3u32) | (1u32 << 2u32) | (1u32 << 12u32) == 4108u32) by (bit_vector);
        self.hclk = 48_000_000;
        ClockGates { apb1: usart2, apb2: ports_spi }
    }

    /// Clocks not yet set up: 0 Hz.
    pub fn default() -> (c: Clocks)
        ensures
            c.hclk == 0,
    {
        Clocks { hclk: 0 }
    }
}

} // verus!
