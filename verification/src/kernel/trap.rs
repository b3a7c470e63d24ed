//! Why the core entered the kernel, read from the `mcause` register, and
//! which interrupts may preempt the handling of an interrupt.
use vstd::prelude::*;

verus! {

/// Bit of `mcause` that marks an interrupt.
pub const INTERRUPT_BIT: u32 = 0x8000_0000;

/// Exception code of an `ecall` from machine mode, which tasks use for
/// system calls.
pub const ECALL_CODE: u32 = 8;

/// Why the core trapped into the kernel.
#[derive(Clone, Copy, PartialEq, Eq, Structural, Debug)]
pub enum TrapCause {
    /// The interrupt with this number.
    Interrupt(u32),
    /// A system call of the running task.
    SystemCall,
    /// Any other exception; the kernel stops there.
    Other,
}

/// The cause that an `mcause` value stands for: an interrupt when the
/// interrupt bit is set, numbered by the remaining bits; otherwise a system
/// call when the low eleven bits hold the `ecall` code.
pub open spec fn trap_cause(mcause: u32) -> TrapCause {
    if mcause & INTERRUPT_BIT != 0 {
        TrapCause::Interrupt(mcause & !INTERRUPT_BIT)
    } else if mcause & 0x7ff == ECALL_CODE {
        TrapCause::SystemCall
    } else {
        TrapCause::Other
    }
}

/// A trap is an interrupt exactly when `mcause` is at least 2^31, numbered
/// by what is left below 2^31; otherwise it is a system call exactly when the
/// exception code, `mcause` modulo 2^11, is 8 (an environment call).
pub proof fn lemma_trap_causes(mcause: u32)
    ensures
        mcause >= 0x8000_0000 ==> trap_cause(mcause) == TrapCause::Interrupt((mcause - 0x8000_0000) as u32),
        mcause < 0x8000_0000 && mcause % 2048 == 8 ==> trap_cause(mcause) == TrapCause::SystemCall,
        mcause < 0x8000_0000 && mcause % 2048 != 8 ==> trap_cause(mcause) == TrapCause::Other,
{
    assert(mcause >= 0x8000_0000 ==> (mcause & 0x8000_0000u32 != 0 && mcause & !0x8000_0000u32 == (mcause
        - 0x8000_0000) as u32)) by (bit_vector);
    assert(mcause < 0x8000_0000 ==> (mcause & 0x8000_0000u32 == 0 && mcause & 0x7ffu32 == mcause % 2048)) by (bit_vector);
}

/// Reads the cause of a trap from `mcause`.
pub fn classify_trap(mcause: u32) -> (c: TrapCause)
    ensures
        c == trap_cause(mcause),
{
    let interrupt = (mcause >> 31) != 0;
    assert(interrupt == (mcause & 0x8000_0000u32 != 0)) by (bit_vector)
        requires
            interrupt == ((mcause >> 31) != 0),
    ;
    if interrupt {
        TrapCause::Interrupt(mcause & !INTERRUPT_BIT)
    } else if mcause & 0x7ff == ECALL_CODE {
        TrapCause::SystemCall
    } else {
        TrapCause::Other
    }
}

/// The highest interrupt priority; while an interrupt of this priority is
/// handled no other interrupt may preempt it.
pub const MAX_INTERRUPT_PRIORITY: u32 = 15;

/// The priority threshold under which interrupts may preempt the handling of
/// an interrupt of priority `priority`: one above it, or `None` when it has
/// the highest priority and interrupts stay disabled.
pub fn nested_threshold(priority: u32) -> (r: Option<u32>)
    ensures
        r == (if priority < MAX_INTERRUPT_PRIORITY {
            Some((priority + 1) as u32)
        } else {
            None::<u32>
        }),
{
    if priority < MAX_INTERRUPT_PRIORITY {
        Some(priority + 1)
    } else {
        None
    }
}

} // verus!
