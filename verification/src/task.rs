use vstd::prelude::*;
use crate::context::{Context, zero_context};
use crate::protocol::{Packet, PacketModel};

verus! {

/// Words of stack that each task gets.
pub const STACK_SIZE: usize = 512;

/// Words of the register save area at the start of a task's memory: the
/// trap entry stores the task's registers there, through `gp`.
pub const CONTEXT_WORDS: usize = 32;

/// Bytes of a machine word.
pub open spec fn word_bytes() -> nat {
    vstd::layout::size_of::<usize>()
}

/// Bytes of a task's memory before its payload: the register save area,
/// then the stack.
pub open spec fn header_bytes() -> nat {
    ((CONTEXT_WORDS + STACK_SIZE) as nat) * word_bytes()
}

/// Bytes of the memory a task with a payload of `payload_len` bytes needs:
/// the save area and the stack, then its copy of the payload.
pub open spec fn task_bytes(payload_len: nat) -> nat {
    header_bytes() + payload_len
}

/// Whether the block `m` holds a task with a payload of `payload_len`
/// bytes and lies within the address space.
pub open spec fn fits(m: TaskMemory, payload_len: nat) -> bool {
    &&& task_bytes(payload_len) <= m.size
    &&& m.base + m.size <= usize::MAX
}

/// The block `mem`, when there is one and it holds a task with a payload
/// of `payload_len` bytes; a block too small counts as none.
pub open spec fn usable(mem: Option<TaskMemory>, payload_len: nat) -> Option<TaskMemory> {
    match mem {
        Some(m) => if fits(m, payload_len) {
            Some(m)
        } else {
            None
        },
        None => None,
    }
}

/// How many bytes to allocate for a task with a payload of `payload_len`
/// bytes (see [`task_bytes`]); `None` when that is more than a `usize`
/// counts.
pub fn task_size(payload_len: usize) -> (r: Option<usize>)
    ensures
        match r {
            Some(n) => n == task_bytes(payload_len as nat),
            None => task_bytes(payload_len as nat) > usize::MAX,
        },
{
    let header = header_size();
    if payload_len > usize::MAX - header {
        None
    } else {
        Some(header + payload_len)
    }
}

/// Whether the block `m` holds a task with a payload of `payload_len` bytes
/// (see [`fits`]).
pub fn memory_fits(m: TaskMemory, payload_len: usize) -> (r: bool)
    ensures
        r == fits(m, payload_len as nat),
{
    let needed = match task_size(payload_len) {
        Some(n) => n,
        None => return false,
    };
    needed <= m.size && m.base <= usize::MAX - m.size
}

/// The value of [`header_bytes`].
fn header_size() -> (r: usize)
    ensures
        r == header_bytes(),
        r <= 4352,
{
    broadcast use vstd::layout::layout_of_primitives;
    let w = core::mem::size_of::<usize>();
    assert(w == 4 || w == 8);
    (CONTEXT_WORDS + STACK_SIZE) * w
}

/// Where a task waits in its life: ready to run, not yet started, or blocked
/// until the task with the given id has finished.
#[derive(Clone, Copy, PartialEq, Eq, Structural, Debug)]
pub enum TaskState {
    Ready,
    Waiting,
    Blocked(usize),
}

/// A block of memory an allocation gave a new task: its address and its size
/// in bytes.  The task's registers are saved at its start, its stack follows
/// them, and its copy of the payload follows the stack.
#[derive(Clone, Copy, PartialEq, Eq, Structural, Debug)]
pub struct TaskMemory {
    pub base: usize,
    pub size: usize,
}

/// A task's bookkeeping: its saved registers, id, the packet that started it,
/// its priority and its state.
pub struct TaskHeader {
    pub context: Context,
    pub task_id: usize,
    pub packet: Packet,
    pub priority: usize,
    pub state: TaskState,
}

/// A unit of work the scheduler runs: one call of an application's or a
/// driver's entry point with a packet.
pub struct Task {
    pub header: TaskHeader,
}

/// A task as the model sees it.
pub struct TaskModel {
    pub context: Context,
    pub task_id: usize,
    pub packet: PacketModel,
    pub priority: usize,
    pub state: TaskState,
}

impl View for Task {
    type V = TaskModel;

    open spec fn view(&self) -> TaskModel {
        TaskModel {
            context: self.header.context,
            task_id: self.header.task_id,
            packet: self.header.packet@,
            priority: self.header.priority,
            state: self.header.state,
        }
    }
}

/// The registers a task in block `mem` starts with: all zero but `gp` (the
/// start of its block, its save area), `sp` (the end of its stack, which is
/// where its payload's copy starts), `a0` and `a1` (that copy's address and
/// length) and `mepc` (the entry point).
pub open spec fn start_context(mem: TaskMemory, payload_len: nat, entry: usize) -> Context {
    Context {
        gp: mem.base,
        sp: (mem.base + header_bytes()) as usize,
        a0: (mem.base + header_bytes()) as usize,
        a1: payload_len as usize,
        mepc: entry,
        ..zero_context()
    }
}

/// A fresh task for `packet`, waiting to start at `entry`.
pub open spec fn new_task_model(packet: PacketModel, priority: usize, entry: usize, task_id: usize, mem: TaskMemory) -> TaskModel {
    TaskModel {
        context: start_context(mem, packet.payload.len(), entry),
        task_id,
        packet,
        priority,
        state: TaskState::Waiting,
    }
}

/// The registers of a driver's task: the driver's state address goes first
/// and the payload's address and length move up one register.
pub open spec fn driver_context(c: Context, driver_addr: usize) -> Context {
    Context { a0: driver_addr, a1: c.a0, a2: c.a1, ..c }
}

impl Task {
    /// A task that runs `addr` with `packet`, in the block `mem`; `None`
    /// when the block cannot hold it (see [`fits`]).
    pub fn new(packet: Packet, priority: usize, addr: usize, task_id: usize, mem: TaskMemory) -> (t: Option<Task>)
        ensures
            match t {
                Some(task) => fits(mem, packet@.payload.len()) && task@ == new_task_model(
                    packet@,
                    priority,
                    addr,
                    task_id,
                    mem,
                ),
                None => !fits(mem, packet@.payload.len()),
            },
    {
        let len = packet.payload.len();
        if !memory_fits(mem, len) {
            return None;
        }
        let header = header_size();
        let mut context = Context::new();
        context.mepc = addr;
        context.gp = mem.base;
        context.sp = mem.base + header;
        context.a0 = mem.base + header;
        context.a1 = len;
        Some(Task { header: TaskHeader { context, task_id, packet, priority, state: TaskState::Waiting } })
    }

    /// Makes the task a driver's: `a0` becomes the driver's state address,
    /// the payload's address and length move to `a1` and `a2`.
    pub fn for_driver(&mut self, driver_addr: usize)
        ensures
            final(self)@ == (TaskModel {
                context: driver_context(old(self)@.context, driver_addr),
                ..old(self)@
            }),
    {
        self.header.context.a2 = self.header.context.a1;
        self.header.context.a1 = self.header.context.a0;
        self.header.context.a0 = driver_addr;
    }
}

} // verus!
