//! Verified core of the Orbit microcontroller kernel: message codes, ring
//! buffers, the task scheduler, the kernel's trap handlers and the decisions
//! that drive the hardware.
pub mod message;
pub mod ringbuf;
pub mod port;
pub mod protocol;
pub mod syscall;
pub mod context;
pub mod bytes;
pub mod application_container;
pub mod task;
pub mod kernel;
pub mod action;
pub mod usizebuf;
pub mod arch;
pub mod pmp_entry;
pub mod common;
pub mod id;
pub mod claim;
pub mod clock;
pub mod peripherals;

use vstd::prelude::*;

verus! {

/// Protection regions an application may be given.
pub const PMP: usize = 4;

/// What the kernel's request buffers hold.
pub type RingbufType = u8;

} // verus!
pub mod orbit_main;
