use vstd::prelude::*;
use crate::clock::ClockGates;

verus! {

/// Clock state of the CH32V208WBU6: the core clock in hertz.
#[derive(Clone, Copy, PartialEq, Eq, Structural, Debug)]
pub struct Clocks {
    pub hclk: u32,
}

/// The bit that selects the internal oscillator's prescaler in the extend
/// control register.
pub const HSI_PRE: u32 = 16;

/// The bit that turns the PLL on in the clock control register.
pub const PLL_ON: u32 = 16777216;

impl Clocks {
    /// Turns on ports B and C and UART4 (after the PLL is running) and runs
    /// the core at 8 MHz.
    pub fn freeze(&mut self) -> (g: ClockGates)
        ensures
            final(self).hclk == 8_000_000,
            g == (ClockGates { apb1: 524288, apb2: 24 }),
    {
        let gpios: u32 = (1u32 << 3u32) | (1u32 << 4u32);
        let uart4: u32 = 1u32 << 19u32;
        assert((1u32 << 3u32) | (1u32 << 4u32) == 24u32) by (bit_vector);
        assert(1u32 << 19u32 == 524288u32) by (bit_vector);
        self.hclk = 8_000_000;
        ClockGates { apb1: uart4, apb2: gpios }
    }

    /// Clocks not yet set up: 0 Hz.
    pub fn default() -> (c: Clocks)
        ensures
            c.hclk == 0,
    {
        Clocks { hclk: 0 }
    }
}

} // verus!
