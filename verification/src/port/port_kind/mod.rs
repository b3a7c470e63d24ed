//! The UARTs that can carry a port on each chip, and how each one's pins
//! are set up.
use vstd::prelude::*;

pub mod ch32v208wbu6;
pub mod ch32x035;

verus! {

/// A bank of GPIO pins.
#[derive(Clone, Copy, PartialEq, Eq, Structural, Debug)]
pub enum GpioBank {
    A,
    B,
    C,
}

/// The configuration register of a bank: pins 0 to 7 (`CFGLR`) or 8 to 15
/// (`CFGHR`).
#[derive(Clone, Copy, PartialEq, Eq, Structural, Debug)]
pub enum ConfigRegister {
    Low,
    High,
}

/// The register writes that set up a UART's pins: the receive pin as a
/// floating input, the transmit pin as a push-pull alternate output.  The
/// configuration register gets `config`, or-ed into its old value when
/// `keep_others` holds; the output data register gets `output`.
#[derive(Clone, Copy, PartialEq, Eq, Structural, Debug)]
pub struct PinSetup {
    pub bank: GpioBank,
    pub register: ConfigRegister,
    pub config: u32,
    pub keep_others: bool,
    pub output: u32,
}

/// The configuration field of a push-pull alternate output (`0b1011`) at
/// pin slot `tx` and of a floating input (`0b1000`) at slot `rx`, each slot
/// four bits wide.
pub open spec fn uart_pins(tx: nat, rx: nat) -> int {
    11 * pow16(tx) + 8 * pow16(rx)
}

/// `16` to the power `n`.
pub open spec fn pow16(n: nat) -> int
    decreases n,
{
    if n == 0 {
        1
    } else {
        16 * pow16((n - 1) as nat)
    }
}

} // verus!
