use vstd::prelude::*;
use crate::arch::pmp::{PmpAccess, PmpError};

verus! {

/// A processor core.
pub trait Cpu: Sized {
    fn new() -> Self;

    fn init(&self);
}

/// A physical memory protection unit with permissions of type `Permission`
/// and address-matching modes of type `Range`.  Each access names the
/// register operation to perform, or why there is none.
pub trait Pmp<Permission, Range> {
    fn write_addr(&self, reg: usize, addr: usize) -> Result<PmpAccess, PmpError>;

    fn read_addr(&self, reg: usize, addr: usize) -> Result<PmpAccess, PmpError>;

    fn write_cfg(&self, reg: usize, index: usize, range: Range, permission: Permission, locked: bool) -> Result<PmpAccess, PmpError>;

    fn read_cfg(&self, reg: usize, index: usize) -> Result<PmpAccess, PmpError>;

    fn clear_cfg(&self, reg: usize, index: usize) -> Result<PmpAccess, PmpError>;
}

/// A timer that can wait.
pub trait Timer {
    /// Delay in ns
    fn delay(&self, ns: u32);
}

} // verus!
