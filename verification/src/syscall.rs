use vstd::prelude::*;

verus! {

/// The system calls an application makes with `ecall`, numbered from 0 in
/// this order; the number travels in register `a0`.
#[derive(Clone, Copy, PartialEq, Eq, Structural, Debug)]
pub enum SysCall {
    /// Only used during driver initialization
    ReturnInit,
    /// Only used after application execution
    ReturnMain,
    /// Only used after driver interrupt handling
    ReturnInterrupt,
    /// Register interrupt for driver
    RegisterInterrupt,
    /// Request delay from kernel
    Delay,
    /// Request the number of kernel ports
    NumPorts,
    /// Send a packet via specific kernel port
    Send,
    /// Send a packet via all kernel ports
    SendAll,
    /// Await the reply to a packet sent earlier via specific kernel port
    Await,
    /// Await all replies to packets sent earlier via all kernel ports
    AwaitAll,
    /// Allocate some memory on the application heap
    MemAlloc,
    /// Only used during driver initialization to claim specific peripheral
    ClaimPeripheral,
    /// Invoke application
    Invoke,
    /// Invoke application locally
    InvokeLocal,
}

/// How many system calls there are.
pub const SYSCALL_COUNT: usize = 14;

/// The number of a system call.
pub open spec fn syscall_number(s: SysCall) -> nat {
    match s {
        SysCall::ReturnInit => 0,
        SysCall::ReturnMain => 1,
        SysCall::ReturnInterrupt => 2,
        SysCall::RegisterInterrupt => 3,
        SysCall::Delay => 4,
        SysCall::NumPorts => 5,
        SysCall::Send => 6,
        SysCall::SendAll => 7,
        SysCall::Await => 8,
        SysCall::AwaitAll => 9,
        SysCall::MemAlloc => 10,
        SysCall::ClaimPeripheral => 11,
        SysCall::Invoke => 12,
        SysCall::InvokeLocal => 13,
    }
}

/// The system call with number `v`, if there is one.
pub open spec fn syscall_of(v: usize) -> Option<SysCall> {
    if v == 0 {
        Some(SysCall::ReturnInit)
    } else if v == 1 {
        Some(SysCall::ReturnMain)
    } else if v == 2 {
        Some(SysCall::ReturnInterrupt)
    } else if v == 3 {
        Some(SysCall::RegisterInterrupt)
    } else if v == 4 {
        Some(SysCall::Delay)
    } else if v == 5 {
        Some(SysCall::NumPorts)
    } else if v == 6 {
        Some(SysCall::Send)
    } else if v == 7 {
        Some(SysCall::SendAll)
    } else if v == 8 {
        Some(SysCall::Await)
    } else if v == 9 {
        Some(SysCall::AwaitAll)
    } else if v == 10 {
        Some(SysCall::MemAlloc)
    } else if v == 11 {
        Some(SysCall::ClaimPeripheral)
    } else if v == 12 {
        Some(SysCall::Invoke)
    } else if v == 13 {
        Some(SysCall::InvokeLocal)
    } else {
        None
    }
}

impl SysCall {
    /// The number of this system call.
    pub fn discriminant(&self) -> (r: usize)
        ensures
            r == syscall_number(*self),
            r < SYSCALL_COUNT,
    {
        match self {
            SysCall::ReturnInit => 0,
            SysCall::ReturnMain => 1,
            SysCall::ReturnInterrupt => 2,
            SysCall::RegisterInterrupt => 3,
            SysCall::Delay => 4,
            SysCall::NumPorts => 5,
            SysCall::Send => 6,
            SysCall::SendAll => 7,
            SysCall::Await => 8,
            SysCall::AwaitAll => 9,
            SysCall::MemAlloc => 10,
            SysCall::ClaimPeripheral => 11,
            SysCall::Invoke => 12,
            SysCall::InvokeLocal => 13,
        }
    }

    /// The system call with number `v`; only numbers of system calls are
    /// accepted.
    pub fn from_usize(v: usize) -> (s: SysCall)
        requires
            v < SYSCALL_COUNT,
        ensures
            syscall_number(s) == v,
    {
        match Self::decode(v) {
            Some(s) => s,
            None => SysCall::ReturnInit,
        }
    }

    /// The system call with number `v`, or `None` for any other number.
    pub fn decode(v: usize) -> (s: Option<SysCall>)
        ensures
            s == syscall_of(v),
            s.is_some() <==> v < SYSCALL_COUNT,
            s.is_some() ==> syscall_number(s.unwrap()) == v,
    {
        if v == 0 {
            Some(SysCall::ReturnInit)
        } else if v == 1 {
            Some(SysCall::ReturnMain)
        } else if v == 2 {
            Some(SysCall::ReturnInterrupt)
        } else if v == 3 {
            Some(SysCall::RegisterInterrupt)
        } else if v == 4 {
            Some(SysCall::Delay)
        } else if v == 5 {
            Some(SysCall::NumPorts)
        } else if v == 6 {
            Some(SysCall::Send)
        } else if v == 7 {
            Some(SysCall::SendAll)
        } else if v == 8 {
            Some(SysCall::Await)
        } else if v == 9 {
            Some(SysCall::AwaitAll)
        } else if v == 10 {
            Some(SysCall::MemAlloc)
        } else if v == 11 {
            Some(SysCall::ClaimPeripheral)
        } else if v == 12 {
            Some(SysCall::Invoke)
        } else if v == 13 {
            Some(SysCall::InvokeLocal)
        } else {
            None
        }
    }
}

/// System calls are numbered from 0 in the order they are declared, and a
/// number names the call it numbers; numbers from 14 on name none.
pub proof fn lemma_syscall_numbers(v: usize)
    ensures
        syscall_number(SysCall::ReturnInit) == 0,
        syscall_number(SysCall::ReturnMain) == 1,
        syscall_number(SysCall::ReturnInterrupt) == 2,
        syscall_number(SysCall::RegisterInterrupt) == 3,
        syscall_number(SysCall::Delay) == 4,
        syscall_number(SysCall::NumPorts) == 5,
        syscall_number(SysCall::Send) == 6,
        syscall_number(SysCall::SendAll) == 7,
        syscall_number(SysCall::Await) == 8,
        syscall_number(SysCall::AwaitAll) == 9,
        syscall_number(SysCall::MemAlloc) == 10,
        syscall_number(SysCall::ClaimPeripheral) == 11,
        syscall_number(SysCall::Invoke) == 12,
        syscall_number(SysCall::InvokeLocal) == 13,
        v < 14 ==> syscall_of(v) is Some && syscall_number(syscall_of(v).unwrap()) == v,
        v >= 14 ==> syscall_of(v) is None,
{
}

/// Numbering is one to one: distinct system calls have distinct numbers.
pub proof fn lemma_syscall_number_injective(a: SysCall, b: SysCall)
    ensures
        syscall_number(a) == syscall_number(b) ==> a == b,
{
}

} // verus!
