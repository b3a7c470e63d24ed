//! A generic RISC-V core: only its protection unit.
use vstd::prelude::*;
use crate::arch::pmp::RiscvPmp;

verus! {

/// A RISC-V core with `PMP` protection regions.
pub struct Core<const PMP: usize> {
    pub pmp: RiscvPmp<PMP>,
}

impl<const PMP: usize> Core<PMP> {
    pub fn new() -> (c: Self) {
        Core { pmp: RiscvPmp }
    }
}

} // verus!
