//! Which physical memory protection registers an access reaches.
use vstd::prelude::*;
use crate::arch::interface::Pmp;

verus! {

/// Access permissions of a protected region.
#[derive(Clone, Copy, PartialEq, Eq, Structural, Debug)]
pub enum Permission {
    NONE,
    R,
    W,
    RW,
    X,
    RX,
    WX,
    RWX,
}

/// How a protected region's address is matched.
#[derive(Clone, Copy, PartialEq, Eq, Structural, Debug)]
pub enum Range {
    OFF,
    TOR,
    NA4,
    NAPOT,
}

/// An access to a register that does not exist.
#[derive(Clone, Copy, PartialEq, Eq, Structural, Debug)]
pub enum PmpError {
    IndexOutOfBounds { index: usize, min: usize, max: usize },
}

/// The register operation an access comes to.
#[derive(Clone, Copy, PartialEq, Eq, Structural, Debug)]
pub enum PmpAccess {
    /// Set entry `index` of configuration register 0.
    SetCfg { index: usize, range: Range, permission: Permission, locked: bool },
    /// Read configuration register 0.
    ReadCfg,
    /// Clear entry `index` of configuration register 0.
    ClearCfg(usize),
    /// Write address register `reg`.
    WriteAddr { reg: usize, addr: usize },
    /// Read address register `reg`.
    ReadAddr(usize),
}

/// The physical memory protection unit of a core with `PMP` regions; only
/// configuration register 0 and address registers 0 to 3 are reached.
pub struct RiscvPmp<const PMP: usize>;

/// The error for a register index outside `0..=max`.
pub open spec fn out_of_bounds(index: usize, max: usize) -> PmpError {
    PmpError::IndexOutOfBounds { index, min: 0, max }
}

/// The index of the last region; for a unit without regions the count wraps
/// around to `usize::MAX`.
pub open spec fn last_region(pmp: usize) -> usize {
    if pmp == 0 {
        usize::MAX
    } else {
        (pmp - 1) as usize
    }
}

/// What `clear_cfg` comes to.
pub open spec fn clear_cfg_result(pmp: usize, reg: usize, index: usize) -> Result<PmpAccess, PmpError> {
    if reg == 0 {
        if index <= 3 {
            Ok(PmpAccess::ClearCfg(index))
        } else {
            Err(out_of_bounds(index, last_region(pmp)))
        }
    } else {
        Err(out_of_bounds(reg, 0))
    }
}

/// What `write_addr` comes to.
pub open spec fn write_addr_result(pmp: usize, reg: usize, addr: usize) -> Result<PmpAccess, PmpError> {
    if reg <= 3 {
        Ok(PmpAccess::WriteAddr { reg, addr })
    } else {
        Err(out_of_bounds(reg, last_region(pmp)))
    }
}

/// The register operations of resetting `n` regions, in order: each region's
/// configuration is cleared and its address zeroed, where the registers
/// exist.
pub open spec fn default_plan(pmp: usize, n: nat) -> Seq<PmpAccess>
    decreases n,
{
    if n == 0 {
        Seq::empty()
    } else {
        let i = (n - 1) as usize;
        let rest = default_plan(pmp, (n - 1) as nat);
        let a = match clear_cfg_result(pmp, 0, i) {
            Ok(x) => seq![x],
            Err(_) => Seq::empty(),
        };
        let b = match write_addr_result(pmp, i, 0) {
            Ok(x) => seq![x],
            Err(_) => Seq::empty(),
        };
        rest + a + b
    }
}

impl<const PMP: usize> RiscvPmp<PMP> {
    /// Clears every region's configuration and address, as far as the
    /// registers reach; returns the register operations, in order.
    pub fn default(&mut self) -> (plan: Vec<PmpAccess>)
        ensures
            plan@ == default_plan(PMP, PMP as nat),
    {
        let mut plan: Vec<PmpAccess> = Vec::new();
        let mut i: usize = 0;
        while i < PMP
            invariant
                i <= PMP,
                plan@ == default_plan(PMP, i as nat),
            decreases PMP - i,
        {
            let ghost prev = plan@;
            match self.clear_cfg(0, i) {
                Ok(a) => plan.push(a),
                Err(_) => {},
            }
            match self.write_addr(i, 0) {
                Ok(a) => plan.push(a),
                Err(_) => {},
            }
            proof {
                let a = match clear_cfg_result(PMP, 0, i) {
                    Ok(x) => seq![x],
                    Err(_) => Seq::<PmpAccess>::empty(),
                };
                let b = match write_addr_result(PMP, i, 0) {
                    Ok(x) => seq![x],
                    Err(_) => Seq::<PmpAccess>::empty(),
                };
                assert(plan@ =~= prev + a + b);
            }
            i = i + 1;
        }
        plan
    }
}

impl<const PMP: usize> Pmp<Permission, Range> for RiscvPmp<PMP> {
    /// Sets an entry of configuration register 0; other configuration
    /// registers do not exist.
    fn write_cfg(&self, reg: usize, index: usize, range: Range, permission: Permission, locked: bool) -> (r: Result<PmpAccess, PmpError>)
        ensures
            reg == 0 ==> r == Ok::<PmpAccess, PmpError>(PmpAccess::SetCfg { index, range, permission, locked }),
            reg != 0 ==> r == Err::<PmpAccess, PmpError>(out_of_bounds(reg, 0)),
    {
        if reg == 0 {
            Ok(PmpAccess::SetCfg { index, range, permission, locked })
        } else {
            Err(PmpError::IndexOutOfBounds { index: reg, min: 0, max: 0 })
        }
    }

    /// Reads configuration register 0; other configuration registers do not
    /// exist.
    fn read_cfg(&self, reg: usize, index: usize) -> (r: Result<PmpAccess, PmpError>)
        ensures
            reg == 0 ==> r == Ok::<PmpAccess, PmpError>(PmpAccess::ReadCfg),
            reg != 0 ==> r == Err::<PmpAccess, PmpError>(out_of_bounds(reg, 0)),
    {
        if reg == 0 {
            Ok(PmpAccess::ReadCfg)
        } else {
            Err(PmpError::IndexOutOfBounds { index: reg, min: 0, max: 0 })
        }
    }

    /// Clears entry `index` (0 to 3) of configuration register 0.
    fn clear_cfg(&self, reg: usize, index: usize) -> (r: Result<PmpAccess, PmpError>)
        ensures
            r == clear_cfg_result(PMP, reg, index),
    {
        if reg == 0 {
            if index <= 3 {
                Ok(PmpAccess::ClearCfg(index))
            } else {
                Err(PmpError::IndexOutOfBounds { index, min: 0, max: PMP.wrapping_sub(1) })
            }
        } else {
            Err(PmpError::IndexOutOfBounds { index: reg, min: 0, max: 0 })
        }
    }

    /// Writes address register `reg` (0 to 3).
    fn write_addr(&self, reg: usize, addr: usize) -> (r: Result<PmpAccess, PmpError>)
        ensures
            r == write_addr_result(PMP, reg, addr),
    {
        if reg <= 3 {
            Ok(PmpAccess::WriteAddr { reg, addr })
        } else {
            Err(PmpError::IndexOutOfBounds { index: reg, min: 0, max: PMP.wrapping_sub(1) })
        }
    }

    /// Reads address register `reg` (0 to 3).
    fn read_addr(&self, reg: usize, addr: usize) -> (r: Result<PmpAccess, PmpError>)
        ensures
            reg <= 3 ==> r == Ok::<PmpAccess, PmpError>(PmpAccess::ReadAddr(reg)),
            reg > 3 ==> r == Err::<PmpAccess, PmpError>(out_of_bounds(reg, 3)),
    {
        if reg <= 3 {
            Ok(PmpAccess::ReadAddr(reg))
        } else {
            Err(PmpError::IndexOutOfBounds { index: reg, min: 0, max: 3 })
        }
    }
}

} // verus!
