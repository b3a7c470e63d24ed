//! The QingKe core: its protection unit and its timer.
use vstd::prelude::*;
use crate::arch::pmp::RiscvPmp;

verus! {

/// Regions of the QingKe V4 protection unit.
pub const PMP: usize = 4;

/// A QingKe core with `PMP` protection regions.
pub struct Core<const PMP: usize> {
    pub pmp: RiscvPmp<PMP>,
    pub timer: CoreClock,
}

impl<const PMP: usize> Core<PMP> {
    /// A core whose timer counts at 10 Hz.
    pub fn new() -> (c: Self)
        ensures
            c.timer.hz() == 10,
    {
        Core { pmp: RiscvPmp, timer: CoreClock::new(10) }
    }
}

/// Counting direction of the system timer.
#[derive(Clone, Copy, PartialEq, Eq, Structural, Debug)]
pub enum SysClockMode {
    Up,
    Down,
}

/// What the system timer counts.
#[derive(Clone, Copy, PartialEq, Eq, Structural, Debug)]
pub enum SysClockSource {
    HCLK,
    HCLK8Division,
}

/// The core's system timer.
pub struct CoreClock {
    hz: u32,
}

impl CoreClock {
    pub closed spec fn hz(&self) -> u32 {
        self.hz
    }

    /// A timer counting at `hz`.
    pub fn new(hz: u32) -> (c: CoreClock)
        ensures
            c.hz() == hz,
    {
        CoreClock { hz }
    }

    /// The frequency the timer counts at.
    pub fn frequency(&self) -> (r: u32)
        ensures
            r == self.hz(),
    {
        self.hz
    }

    /// Sets the timer's interrupts, direction and source; this core keeps its
    /// reset settings, so nothing changes.
    pub fn configure(&mut self, sw_int_en: bool, int_en: bool, mode: SysClockMode, source: SysClockSource)
        ensures
            final(self).hz() == old(self).hz(),
    {
    }

    /// Starts the timer; it already runs from reset, so nothing changes.
    pub fn start(&mut self)
        ensures
            final(self).hz() == old(self).hz(),
    {
    }
}

} // verus!
