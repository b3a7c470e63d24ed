//! Clock set-up of the supported chips: which peripheral clocks each turns
//! on and the core clock frequency it ends up with.
use vstd::prelude::*;

pub mod ch592;
pub mod ch32v003;
pub mod ch32v208wbu6;
pub mod ch32x035;

verus! {

/// The peripherals whose clocks are reset and then enabled, as bit masks of
/// the two peripheral buses' reset and enable registers.
#[derive(Clone, Copy, PartialEq, Eq, Structural, Debug)]
pub struct ClockGates {
    pub apb1: u32,
    pub apb2: u32,
}

} // verus!
