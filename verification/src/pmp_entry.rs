use vstd::prelude::*;
use crate::arch::pmp::{Range, Permission};

verus! {

/// One region of physical memory protection: its address, how the address
/// is matched, the access allowed, and whether the entry is locked.
#[derive(Clone, Copy, PartialEq, Eq, Structural, Debug)]
pub struct PmpEntry {
    pub address: usize,
    pub range: Range,
    pub permission: Permission,
    pub locked: bool,
}

impl PmpEntry {
    pub fn new(addr: usize, range: Range, permission: Permission, locked: bool) -> (e: PmpEntry)
        ensures
            e == (PmpEntry { address: addr, range, permission, locked }),
    {
        PmpEntry { address: addr, range, permission, locked }
    }

    /// A switched-off entry: address 0, no matching, no access, unlocked.
    pub fn default() -> (e: PmpEntry)
        ensures
            e == (PmpEntry { address: 0, range: Range::OFF, permission: Permission::NONE, locked: false }),
    {
        PmpEntry { address: 0x0, range: Range::OFF, permission: Permission::NONE, locked: false }
    }
}

} // verus!
