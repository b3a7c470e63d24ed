//! The kernel: its tasks, its handlers for port traffic, interrupts and
//! system calls.  The handlers decide; what they decide to do to the
//! hardware comes back as a list of [`KernelAction`]s.
use vstd::prelude::*;
use crate::application_container::AppContainer;
use crate::context::{Context, zero_context};
use crate::port::{Port, port_outcome, can_handle, can_append, port_ids, appends, handled_as, opt_view, frames_view};
use crate::protocol::{
    Packet, PacketModel, Message, decodable, spaceport_decode, decoded, encoded, new_model,
    reply_model, has_flag, MAX_PAYLOAD_LENGTH, MAX_BUFFER_LENGTH, PROTOCOL_VERSION, ERROR,
    FRAGMENTED, ACK_REQUIRED,
};
use crate::syscall::{SysCall, syscall_of};
use crate::task::{Task, TaskModel, TaskMemory, TaskState, new_task_model, driver_context, usable};
use crate::bytes::{to_vec, extend, to_le_bytes, usize_le_bytes};
use crate::kernel::scheduler::{Scheduler, add_index, sorted, lemma_add_keeps_sorted, lemma_update_keeps_sorted};
use crate::kernel::message_handlers::{handle_invoke, invoke_outcome, find_by_name, find_named, invoke_needs_reply, lemma_invoke_replies};

pub mod scheduler;
pub mod message_handlers;
pub mod port_handler;
pub mod trap;


verus! {

/// How many applications a kernel image is built for.
pub const APPS: usize = 5;

pub const KERNEL_MAJOR: u8 = 0;

pub const KERNEL_MINOR: u8 = 1;

/// Slots of the table that maps interrupt numbers to drivers.
pub const INTERRUPT_SLOTS: usize = 255;

/// Something the kernel decided to do to the hardware.
pub enum KernelAction {
    /// Write these bytes to the port with this index.
    Write(usize, Vec<u8>),
    EnableInterrupt(u8),
    DisableInterrupt(u8),
    /// Return from the trap into the kernel's idle loop.
    ResumeAtWait,
}

/// A [`KernelAction`] as the model sees it.
pub enum ActionModel {
    Write(usize, Seq<u8>),
    EnableInterrupt(u8),
    DisableInterrupt(u8),
    ResumeAtWait,
}

impl View for KernelAction {
    type V = ActionModel;

    open spec fn view(&self) -> ActionModel {
        match self {
            KernelAction::Write(p, b) => ActionModel::Write(*p, b@),
            KernelAction::EnableInterrupt(i) => ActionModel::EnableInterrupt(*i),
            KernelAction::DisableInterrupt(i) => ActionModel::DisableInterrupt(*i),
            KernelAction::ResumeAtWait => ActionModel::ResumeAtWait,
        }
    }
}

pub open spec fn actions_view(a: Seq<KernelAction>) -> Seq<ActionModel> {
    a.map_values(|x: KernelAction| x@)
}

/// What the kernel must do for an interrupt.
pub enum InterruptOutcome {
    /// The interrupt belongs to the port with this index: read what it
    /// received and hand it to [`Kernel::port_handler`].
    Port(usize),
    Actions(Vec<KernelAction>),
}

/// The kernel's state: the registered applications and drivers, which driver
/// each interrupt belongs to, the ports and their interrupt numbers, the
/// core clock, the run queue, and the next packet and task ids.
pub struct Kernel<'k> {
    context: Context,
    apps: Vec<AppContainer<'k>>,
    drivers: Vec<AppContainer<'k>>,
    interrupts: [Option<u8>; 255],
    ports: Vec<Port>,
    port_interrupts: Vec<usize>,
    claims: Vec<bool>,
    clock: usize,
    scheduler: Scheduler,
    packet_id: u16,
    task_id: usize,
}

/// Text of the reply to a message the kernel does not handle.
pub open spec fn not_implemented_text() -> Seq<u8> {
    seq![78u8, 111, 116, 32, 105, 109, 112, 108, 101, 109, 101, 110, 116, 101, 100]
}

pub fn not_implemented_bytes() -> (r: Vec<u8>)
    ensures
        r@ == not_implemented_text(),
{
    let r: Vec<u8> = vec![78u8, 111, 116, 32, 105, 109, 112, 108, 101, 109, 101, 110, 116, 101, 100];
    proof {
        assert(r@ =~= not_implemented_text());
    }
    r
}

/// The write of a reply's frame to a port, when the reply encodes.
pub open spec fn reply_writes(port: usize, reply: Option<PacketModel>) -> Seq<ActionModel> {
    match reply {
        Some(r) => if r.payload.len() <= MAX_PAYLOAD_LENGTH {
            seq![ActionModel::Write(port, encoded(r))]
        } else {
            Seq::empty()
        },
        None => Seq::empty(),
    }
}

/// The writes of frames to a port.
pub open spec fn frame_writes(port: usize, frames: Seq<Seq<u8>>) -> Seq<ActionModel> {
    frames.map_values(|f: Seq<u8>| ActionModel::Write(port, f))
}

/// The reply to the kernel-version request `q`.
pub open spec fn version_reply(q: PacketModel) -> PacketModel {
    new_model(0, (q.packet_id + 1) as u16, q.dst, q.src, Message::Reply, seq![KERNEL_MAJOR, KERNEL_MINOR])
}

/// The reply to a packet the kernel has no handler for.
pub open spec fn not_implemented_reply() -> PacketModel {
    PacketModel {
        version: PROTOCOL_VERSION,
        flags: ERROR,
        packet_id: 0,
        src: 0,
        dst: 0,
        ttl: 0,
        msg_type: Message::Reply,
        payload: not_implemented_text(),
    }
}

/// The interrupts registered to the driver with index `d`, in order, each as
/// an action that enables it.
pub open spec fn enables_for(interrupts: Seq<Option<u8>>, d: u8) -> Seq<ActionModel>
    decreases interrupts.len(),
{
    if interrupts.len() == 0 {
        Seq::empty()
    } else {
        let rest = enables_for(interrupts.drop_last(), d);
        if interrupts.last() == Some(d) {
            rest.push(ActionModel::EnableInterrupt((interrupts.len() - 1) as u8))
        } else {
            rest
        }
    }
}

/// The front task after a trap: the saved registers, resuming after the
/// `ecall`.
pub open spec fn trapped(tasks: Seq<TaskModel>, saved: Context) -> Seq<TaskModel> {
    tasks.update(0, TaskModel { context: Context { mepc: (saved.mepc + 4) as usize, ..saved }, ..tasks[0] })
}

/// The payload of an invocation from a task: the name, a space, the argument.
pub open spec fn invocation(name: Seq<u8>, arg: Seq<u8>) -> Seq<u8> {
    name + seq![32u8] + arg
}

/// The first task blocked on the task with id `id`.
pub open spec fn first_blocked(tasks: Seq<TaskModel>, id: usize) -> Option<int>
    decreases tasks.len(),
{
    if tasks.len() == 0 {
        None
    } else {
        match first_blocked(tasks.drop_last(), id) {
            Some(i) => Some(i),
            None => if tasks.last().state == TaskState::Blocked(id) {
                Some(tasks.len() - 1)
            } else {
                None
            },
        }
    }
}

/// The queue after a task finishes: it leaves the front, and the first task
/// blocked on it gets its result (`a1` of the finished task) in `a0` and is
/// ready again.
pub open spec fn finish_front(tasks: Seq<TaskModel>) -> Seq<TaskModel> {
    let done = tasks[0];
    let rest = tasks.subrange(1, tasks.len() as int);
    match first_blocked(rest, done.task_id) {
        Some(b) => rest.update(
            b,
            TaskModel {
                context: Context { a0: done.context.a1, ..rest[b].context },
                state: TaskState::Ready,
                ..rest[b]
            },
        ),
        None => rest,
    }
}

/// The frame of an invocation packet, padded with zeros to a full buffer.
pub open spec fn padded(frame: Seq<u8>) -> Seq<u8> {
    frame + Seq::new((MAX_BUFFER_LENGTH - frame.len()) as nat, |i: int| 0u8)
}

/// Writes of the same bytes to every port, in order.
pub open spec fn broadcast_writes(nports: nat, frame: Seq<u8>) -> Seq<ActionModel> {
    Seq::new(nports, |j: int| ActionModel::Write(j as usize, frame))
}

/// A priority one above `p`, staying at the highest.
pub open spec fn raised(p: usize) -> usize {
    if p == usize::MAX {
        p
    } else {
        (p + 1) as usize
    }
}

/// The task an `InvokeLocal` call creates in block `m`: it runs the entry
/// point `main` of the application named `name` (looked for first) or of
/// the driver of that name, at the given priority, with the invocation
/// `payload` in a packet with id `pid`; a driver's task also gets the
/// driver's state.
pub open spec fn local_task<'k>(
    apps: Seq<AppContainer<'k>>,
    drivers: Seq<AppContainer<'k>>,
    name: Seq<u8>,
    payload: Seq<u8>,
    pid: u16,
    priority: usize,
    task_id: usize,
    m: TaskMemory,
) -> TaskModel {
    let packet = new_model(0, pid, 0, 0, Message::Invoke, payload);
    match find_named(apps, name) {
        Some(i) => new_task_model(packet, priority, apps[i].spec_main_addr(), task_id, m),
        None => {
            let j = find_named(drivers, name).unwrap();
            let t0 = new_task_model(packet, priority, drivers[j].spec_main_addr(), task_id, m);
            TaskModel { context: driver_context(t0.context, drivers[j].spec_driver_struct().unwrap()), ..t0 }
        },
    }
}

/// The first port whose interrupt number is `code`.
pub open spec fn first_port(ints: Seq<usize>, code: usize) -> Option<int>
    decreases ints.len(),
{
    if ints.len() == 0 {
        None
    } else {
        match first_port(ints.drop_last(), code) {
            Some(i) => Some(i),
            None => if ints.last() == code {
                Some(ints.len() - 1)
            } else {
                None
            },
        }
    }
}

proof fn lemma_first_port(ints: Seq<usize>, code: usize)
    ensures
        match first_port(ints, code) {
            Some(i) => 0 <= i < ints.len() && ints[i] == code && forall|j: int|
                0 <= j < i ==> ints[j] != code,
            None => forall|j: int| 0 <= j < ints.len() ==> ints[j] != code,
        },
    decreases ints.len(),
{
    if ints.len() > 0 {
        lemma_first_port(ints.drop_last(), code);
        assert(forall|j: int| 0 <= j < ints.len() - 1 ==> ints.drop_last()[j] == ints[j]);
    }
}

/// The index of the driver that interrupt `code` is registered to, when it
/// is registered to one that exists.
pub open spec fn driver_of_interrupt<'k>(interrupts: Seq<Option<u8>>, drivers: Seq<AppContainer<'k>>, code: usize) -> Option<int> {
    if code < INTERRUPT_SLOTS {
        match interrupts[code as int] {
            Some(d) => if (d as int) < drivers.len() {
                Some(d as int)
            } else {
                None
            },
            None => None,
        }
    } else {
        None
    }
}

/// What the kernel does with a packet delivered to it: an invocation is
/// handled as [`invoke_outcome`] says, a version request is answered with
/// the kernel's version, anything else with an error.
pub open spec fn dispatch<'k>(
    apps: Seq<AppContainer<'k>>,
    drivers: Seq<AppContainer<'k>>,
    tasks: Seq<TaskModel>,
    task_id: usize,
    q: PacketModel,
    mem: Option<TaskMemory>,
) -> (Seq<TaskModel>, usize, Option<PacketModel>) {
    if q.msg_type == Message::Invoke {
        invoke_outcome(apps, drivers, tasks, task_id, q, mem)
    } else if q.msg_type == Message::KernelVersion {
        (tasks, task_id, Some(version_reply(q)))
    } else {
        (tasks, task_id, Some(not_implemented_reply()))
    }
}

/// What handling packet `p` on port `i` does, given whether the port could
/// reserve room for fragments: the port's new fragments, the queue, the next
/// task id, the actions and the next packet id.  The port handles the
/// packet as [`port_outcome`] says and its frames go back on port `i`; a
/// packet it hands on is dispatched, its reply (when it encodes) goes back
/// on port `i` too, and the port's fragments are dropped.
pub open spec fn port_step<'k>(
    frags: Seq<u8>,
    p: PacketModel,
    reserve_ok: bool,
    i: usize,
    apps: Seq<AppContainer<'k>>,
    drivers: Seq<AppContainer<'k>>,
    tasks: Seq<TaskModel>,
    task_id: usize,
    packet_id: u16,
    mem: Option<TaskMemory>,
) -> (Seq<u8>, Seq<TaskModel>, usize, Seq<ActionModel>, nat) {
    let o = port_outcome(frags, p, reserve_ok);
    let acts = frame_writes(i, o.2);
    let pid = packet_id + o.2.len();
    match o.1 {
        None => (o.0, tasks, task_id, acts, pid as nat),
        Some(q) => {
            let d = dispatch(apps, drivers, tasks, task_id, q, mem);
            let w = reply_writes(i, d.2);
            (Seq::empty(), d.0, d.1, acts + w, (pid + w.len()) as nat)
        },
    }
}

/// The actions that write each frame to port `i`, in order.
fn frames_to_actions(i: usize, writes: &Vec<Vec<u8>>) -> (actions: Vec<KernelAction>)
    ensures
        actions_view(actions@) == frame_writes(i, frames_view(writes@)),
{
    let mut actions: Vec<KernelAction> = Vec::new();
    let mut w: usize = 0;
    let nwrites = writes.len();
    while w < nwrites
        invariant
            nwrites == writes@.len(),
            w <= nwrites,
            actions_view(actions@) == frame_writes(i, frames_view(writes@.subrange(0, w as int))),
        decreases nwrites - w,
    {
        let copy = to_vec(writes[w].as_slice());
        let ghost prev = actions@;
        actions.push(KernelAction::Write(i, copy));
        w = w + 1;
        proof {
            assert(frames_view(writes@.subrange(0, w as int)) =~= frames_view(writes@.subrange(0, w - 1)).push(writes@[w - 1]@));
            assert(actions_view(actions@) =~= actions_view(prev).push(ActionModel::Write(i, writes@[w - 1]@)));
            assert(actions_view(actions@) =~= frame_writes(i, frames_view(writes@.subrange(0, w as int))));
        }
    }
    proof {
        assert(writes@.subrange(0, nwrites as int) =~= writes@);
    }
    actions
}

/// Handling an invocation keeps the queue ordered.
pub proof fn lemma_invoke_keeps_sorted<'k>(
    apps: Seq<AppContainer<'k>>,
    drivers: Seq<AppContainer<'k>>,
    tasks: Seq<TaskModel>,
    task_id: usize,
    p: PacketModel,
    mem: Option<TaskMemory>,
)
    requires
        sorted(tasks),
    ensures
        sorted(invoke_outcome(apps, drivers, tasks, task_id, p, mem).0),
{
    let name = crate::kernel::message_handlers::invoked_name(p.payload);
    let arg = PacketModel { payload: crate::kernel::message_handlers::invoked_arg(p.payload), ..p };
    match find_named(apps, name) {
        Some(i) => match usable(mem, arg.payload.len()) {
            Some(m) => {
                lemma_add_keeps_sorted(tasks, new_task_model(arg, 1, apps[i].spec_main_addr(), task_id, m));
            },
            None => {},
        },
        None => match find_named(drivers, name) {
            Some(j) => match usable(mem, arg.payload.len()) {
                Some(m) => {
                    let t0 = new_task_model(arg, 1, drivers[j].spec_main_addr(), task_id, m);
                    lemma_add_keeps_sorted(tasks, TaskModel {
                        context: driver_context(t0.context, drivers[j].spec_driver_struct().unwrap()),
                        ..t0
                    });
                },
                None => {},
            },
            None => {},
        },
    }
}

/// The kernel's replies to dispatched packets are short enough to encode.
proof fn lemma_kernel_replies_encode<'k>(
    apps: Seq<AppContainer<'k>>,
    drivers: Seq<AppContainer<'k>>,
    tasks: Seq<TaskModel>,
    task_id: usize,
    q: PacketModel,
    mem: Option<TaskMemory>,
)
    ensures
        reply_writes(0, dispatch(apps, drivers, tasks, task_id, q, mem).2).len() == if dispatch(
            apps,
            drivers,
            tasks,
            task_id,
            q,
            mem,
        ).2.is_some() {
            1nat
        } else {
            0nat
        },
{
    assert(crate::kernel::message_handlers::no_task_text().len() == 21);
    assert(crate::kernel::message_handlers::unknown_name_text().len() == 12);
    assert(not_implemented_text().len() == 15);
}

proof fn lemma_find_named_bounds<'k>(apps: Seq<AppContainer<'k>>, name: Seq<u8>)
    ensures
        find_named(apps, name) matches Some(i) ==> 0 <= i < apps.len(),
{
    crate::kernel::message_handlers::lemma_find_named(apps, name);
}

proof fn lemma_first_blocked(tasks: Seq<TaskModel>, id: usize)
    ensures
        match first_blocked(tasks, id) {
            Some(i) => 0 <= i < tasks.len() && tasks[i].state == TaskState::Blocked(id)
                && forall|j: int| 0 <= j < i ==> tasks[j].state != TaskState::Blocked(id),
            None => forall|j: int| 0 <= j < tasks.len() ==> tasks[j].state != TaskState::Blocked(id),
        },
    decreases tasks.len(),
{
    if tasks.len() > 0 {
        lemma_first_blocked(tasks.drop_last(), id);
        assert(forall|j: int| 0 <= j < tasks.len() - 1 ==> tasks.drop_last()[j] == tasks[j]);
    }
}

impl<'k> Kernel<'k> {
    pub closed spec fn wf(&self) -> bool {
        &&& self.ports@.len() == self.port_interrupts@.len()
        &&& sorted(self.scheduler.tasks())
        &&& forall|j: int| 0 <= j < self.drivers@.len() ==> (#[trigger] self.drivers@[j]).spec_driver_struct().is_some()
    }

    /// The kernel's own saved registers.
    pub closed spec fn kernel_context(&self) -> Context {
        self.context
    }

    /// In a well-formed kernel the run queue is ordered by priority, highest
    /// first; every operation of the kernel keeps it well-formed, so the task
    /// that runs next always has the highest priority.
    pub proof fn lemma_queue_sorted(&self)
        requires
            self.wf(),
        ensures
            sorted(self.tasks()),
            self.tasks().len() > 0 ==> forall|j: int| 0 <= j < self.tasks().len() ==> self.tasks()[0].priority >= #[trigger] self.tasks()[j].priority,
    {
        if self.tasks().len() > 0 {
            crate::kernel::scheduler::lemma_front_has_highest_priority(self.tasks());
        }
    }

    pub closed spec fn tasks(&self) -> Seq<TaskModel> {
        self.scheduler.tasks()
    }

    pub closed spec fn apps(&self) -> Seq<AppContainer<'k>> {
        self.apps@
    }

    pub closed spec fn drivers(&self) -> Seq<AppContainer<'k>> {
        self.drivers@
    }

    pub closed spec fn interrupts(&self) -> Seq<Option<u8>> {
        self.interrupts@
    }

    pub closed spec fn port_count(&self) -> nat {
        self.ports@.len()
    }

    /// The payload pieces port `i` has collected.
    pub closed spec fn fragments(&self, i: int) -> Seq<u8> {
        self.ports@[i].fragments@
    }

    pub closed spec fn port_interrupts(&self) -> Seq<usize> {
        self.port_interrupts@
    }

    /// Which of the claimable peripherals are claimed.
    pub closed spec fn claims(&self) -> Seq<bool> {
        self.claims@
    }

    pub closed spec fn spec_clock(&self) -> usize {
        self.clock
    }

    pub closed spec fn next_packet_id(&self) -> u16 {
        self.packet_id
    }

    pub closed spec fn next_task_id(&self) -> usize {
        self.task_id
    }

    /// Everything but the run queue, the next task id and the kernel's own
    /// registers is the same in both kernels.
    pub open spec fn same_but_tasks(&self, other: &Kernel<'k>) -> bool {
        &&& self.apps() == other.apps()
        &&& self.drivers() == other.drivers()
        &&& self.interrupts() == other.interrupts()
        &&& self.port_count() == other.port_count()
        &&& (forall|i: int| 0 <= i < self.port_count() ==> self.fragments(i) == other.fragments(i))
        &&& self.port_interrupts() == other.port_interrupts()
        &&& self.claims() == other.claims()
        &&& self.spec_clock() == other.spec_clock()
    }

    /// A kernel with nothing registered, no tasks, none of its
    /// `peripheral_count` claimable peripherals claimed, and one port per
    /// entry of `port_interrupts`, the interrupt number of that port; each
    /// port's interrupt is to be enabled.  Its saved registers are zero but
    /// its stack pointer, which is `sp`, the caller's.
    pub fn new(clock: usize, port_interrupts: Vec<usize>, sp: usize, peripheral_count: usize) -> (r: (Kernel<'k>, Vec<KernelAction>))
        ensures
            r.0.wf(),
            r.0.kernel_context() == (Context { sp, ..zero_context() }),
            r.0.claims() == Seq::new(peripheral_count as nat, |i: int| false),
            r.0.tasks() == Seq::<TaskModel>::empty(),
            r.0.apps() == Seq::<AppContainer<'k>>::empty(),
            r.0.drivers() == Seq::<AppContainer<'k>>::empty(),
            r.0.interrupts() == Seq::new(INTERRUPT_SLOTS as nat, |i: int| None::<u8>),
            r.0.port_count() == port_interrupts@.len(),
            forall|i: int| 0 <= i < r.0.port_count() ==> r.0.fragments(i) == Seq::<u8>::empty(),
            r.0.port_interrupts() == port_interrupts@,
            r.0.spec_clock() == clock,
            r.0.next_packet_id() == 0,
            r.0.next_task_id() == 0,
            actions_view(r.1@) == port_interrupts@.map_values(
                |n: usize| ActionModel::EnableInterrupt(n as u8),
            ),
    {
        let mut ports: Vec<Port> = Vec::new();
        let mut actions: Vec<KernelAction> = Vec::new();
        let mut i: usize = 0;
        while i < port_interrupts.len()
            invariant
                i <= port_interrupts@.len(),
                ports@.len() == i,
                forall|j: int| 0 <= j < i ==> (#[trigger] ports@[j]).fragments@ == Seq::<u8>::empty(),
                actions_view(actions@) == port_interrupts@.subrange(0, i as int).map_values(
                    |n: usize| ActionModel::EnableInterrupt(n as u8),
                ),
            decreases port_interrupts@.len() - i,
        {
            ports.push(Port::new());
            let ghost prev = actions@;
            let n = port_interrupts[i];
            actions.push(KernelAction::EnableInterrupt(#[verifier::truncate] (n as u8)));
            proof {
                assert(actions_view(actions@) =~= actions_view(prev).push(
                    ActionModel::EnableInterrupt(n as u8),
                ));
                assert(port_interrupts@.subrange(0, i + 1) =~= port_interrupts@.subrange(
                    0,
                    i as int,
                ).push(n));
                assert(port_interrupts@.subrange(0, i + 1).map_values(
                    |n: usize| ActionModel::EnableInterrupt(n as u8),
                ) =~= port_interrupts@.subrange(0, i as int).map_values(
                    |n: usize| ActionModel::EnableInterrupt(n as u8),
                ).push(ActionModel::EnableInterrupt(n as u8)));
            }
            i = i + 1;
        }
        proof {
            assert(port_interrupts@.subrange(0, i as int) =~= port_interrupts@);
        }
        let mut claims: Vec<bool> = Vec::new();
        let mut c: usize = 0;
        while c < peripheral_count
            invariant
                c <= peripheral_count,
                claims@ == Seq::new(c as nat, |i: int| false),
            decreases peripheral_count - c,
        {
            claims.push(false);
            c = c + 1;
            proof {
                assert(claims@ =~= Seq::new(c as nat, |i: int| false));
            }
        }
        let mut context = Context::new();
        context.sp = sp;
        let k = Kernel {
            context,
            apps: Vec::new(),
            drivers: Vec::new(),
            interrupts: [None; 255],
            ports,
            port_interrupts,
            claims,
            clock,
            scheduler: Scheduler::new(),
            packet_id: 0,
            task_id: 0,
        };
        proof {
            assert(k.interrupts() =~= Seq::new(INTERRUPT_SLOTS as nat, |i: int| None::<u8>));
        }
        (k, actions)
    }

    /// The kernel's (major, minor) version.
    pub fn version(&self) -> (r: (u8, u8))
        ensures
            r == (KERNEL_MAJOR, KERNEL_MINOR),
    {
        (KERNEL_MAJOR, KERNEL_MINOR)
    }

    /// The core clock frequency in hertz.
    pub fn clock(&self) -> (r: usize)
        ensures
            r == self.spec_clock(),
    {
        self.clock
    }

    /// Registers an application.
    pub fn add_application(&mut self, app_cont: AppContainer<'k>)
        requires
            old(self).wf(),
        ensures
            final(self).wf(),
            final(self).apps() == old(self).apps().push(app_cont),
            final(self).drivers() == old(self).drivers(),
            final(self).interrupts() == old(self).interrupts(),
            final(self).port_count() == old(self).port_count(),
            forall|i: int| 0 <= i < final(self).port_count() ==> final(self).fragments(i) == old(self).fragments(i),
            final(self).port_interrupts() == old(self).port_interrupts(),
            final(self).claims() == old(self).claims(),
            final(self).spec_clock() == old(self).spec_clock(),
            final(self).tasks() == old(self).tasks(),
            final(self).next_packet_id() == old(self).next_packet_id(),
            final(self).next_task_id() == old(self).next_task_id(),
            final(self).kernel_context() == old(self).kernel_context(),
    {
        self.apps.push(app_cont);
    }

    /// Registers a driver and queues its `init` task, given the memory for
    /// the task; without memory that can hold the task nothing happens.
    pub fn add_driver(&mut self, app_cont: AppContainer<'k>, mem: Option<TaskMemory>)
        requires
            old(self).wf(),
            mem.is_some() ==> app_cont.spec_driver_struct().is_some(),
            mem.is_some() ==> old(self).next_task_id() < usize::MAX,
        ensures
            final(self).wf(),
            final(self).same_but_tasks_and_drivers(old(self)),
            final(self).next_packet_id() == old(self).next_packet_id(),
            final(self).kernel_context() == old(self).kernel_context(),
            match usable(mem, app_cont.name_bytes().len()) {
                Some(m) => {
                    let p = new_model(0, 0, 0, 0, Message::Invoke, app_cont.name_bytes());
                    let t0 = new_task_model(p, 1, app_cont.spec_init_addr(), old(self).next_task_id(), m);
                    let t = TaskModel {
                        context: driver_context(t0.context, app_cont.spec_driver_struct().unwrap()),
                        ..t0
                    };
                    &&& final(self).drivers() == old(self).drivers().push(app_cont)
                    &&& final(self).tasks() == old(self).tasks().insert(add_index(old(self).tasks(), 1), t)
                    &&& final(self).next_task_id() == old(self).next_task_id() + 1
                },
                None => {
                    &&& final(self).drivers() == old(self).drivers()
                    &&& final(self).tasks() == old(self).tasks()
                    &&& final(self).next_task_id() == old(self).next_task_id()
                },
            },
    {
        let made = match mem {
            Some(m) => {
                let name = to_vec(app_cont.name_as_bytes());
                let packet = Packet::new(0, 0, 0, 0, Message::Invoke, name);
                Task::new(packet, 1, app_cont.init_addr(), self.task_id, m)
            },
            None => None,
        };
        match made {
            Some(mut task) => {
                self.task_id = self.task_id + 1;
                let driver_struct = app_cont.driver_struct().unwrap();
                task.for_driver(driver_struct);
                self.drivers.push(app_cont);
                proof {
                    lemma_add_keeps_sorted(self.scheduler.tasks(), task@);
                }
                self.scheduler.add(task);
            },
            None => {},
        }
    }

    /// Everything but the run queue, the drivers and the next task id is the
    /// same in both kernels.
    pub open spec fn same_but_tasks_and_drivers(&self, other: &Kernel<'k>) -> bool {
        &&& self.apps() == other.apps()
        &&& self.interrupts() == other.interrupts()
        &&& self.port_count() == other.port_count()
        &&& (forall|i: int| 0 <= i < self.port_count() ==> self.fragments(i) == other.fragments(i))
        &&& self.port_interrupts() == other.port_interrupts()
        &&& self.claims() == other.claims()
        &&& self.spec_clock() == other.spec_clock()
    }

    /// Sends a reply's frame to port `port` when the reply encodes; every
    /// frame sent uses up a packet id.
    fn respond(&mut self, port: usize, reply: &Packet, actions: &mut Vec<KernelAction>)
        requires
            reply.payload@.len() <= MAX_PAYLOAD_LENGTH ==> old(self).packet_id < u16::MAX,
        ensures
            actions_view(final(actions)@) == actions_view(old(actions)@) + reply_writes(port, Some(reply@)),
            final(self).packet_id == old(self).packet_id + reply_writes(port, Some(reply@)).len(),
            final(self).kernel_context() == old(self).kernel_context(),
            final(self).apps == old(self).apps,
            final(self).drivers == old(self).drivers,
            final(self).interrupts == old(self).interrupts,
            final(self).ports == old(self).ports,
            final(self).port_interrupts == old(self).port_interrupts,
            final(self).claims == old(self).claims,
            final(self).clock == old(self).clock,
            final(self).scheduler == old(self).scheduler,
            final(self).task_id == old(self).task_id,
    {
        match reply.encode() {
            Some(frame) => {
                actions.push(KernelAction::Write(port, frame));
                self.packet_id = self.packet_id + 1;
                proof {
                    assert(actions_view(actions@) =~= actions_view(old(actions)@) + reply_writes(port, Some(reply@)));
                }
            },
            None => {
                proof {
                    assert(actions_view(actions@) =~= actions_view(old(actions)@) + reply_writes(port, Some(reply@)));
                }
            },
        }
    }

    /// The index of the first port whose interrupt number is `code`.
    fn find_port(&self, code: usize) -> (r: Option<usize>)
        ensures
            match r {
                Some(j) => first_port(self.port_interrupts@, code) == Some(j as int),
                None => first_port(self.port_interrupts@, code).is_none(),
            },
    {
        let mut j: usize = 0;
        while j < self.port_interrupts.len()
            invariant
                j <= self.port_interrupts@.len(),
                forall|i: int| 0 <= i < j ==> self.port_interrupts@[i] != code,
            decreases self.port_interrupts@.len() - j,
        {
            if self.port_interrupts[j] == code {
                proof {
                    lemma_first_port(self.port_interrupts@, code);
                    match first_port(self.port_interrupts@, code) {
                        Some(k) => {
                            assert(k == j as int);
                        },
                        None => {},
                    }
                }
                return Some(j);
            }
            j = j + 1;
        }
        proof {
            lemma_first_port(self.port_interrupts@, code);
        }
        None
    }

    /// Whether another task can still get an id of its own.
    pub fn can_make_task(&self) -> (r: bool)
        ensures
            r == (self.next_task_id() < usize::MAX),
    {
        self.task_id < usize::MAX
    }

    /// How many payload bytes port `i` has collected.
    pub fn fragments_len(&self, i: usize) -> (r: usize)
        requires
            self.wf(),
            i < self.port_count(),
        ensures
            r == self.fragments(i as int).len(),
    {
        self.ports[i].fragments.len()
    }

    /// The payload length of the task that interrupt `code` spawns, if it
    /// spawns one (see [`Kernel::interrupt_handler`]): the length of the
    /// name of the driver it is registered to, when it is no port's.
    pub fn interrupt_task_payload(&self, code: usize) -> (r: Option<usize>)
        ensures
            r == match first_port(self.port_interrupts(), code) {
                Some(_) => None::<usize>,
                None => match driver_of_interrupt(self.interrupts(), self.drivers(), code) {
                    Some(d) => Some(self.drivers()[d].name_bytes().len() as usize),
                    None => None::<usize>,
                },
            },
    {
        match self.find_port(code) {
            Some(_) => None,
            None => {
                if code < INTERRUPT_SLOTS {
                    match self.interrupts[code] {
                        Some(d) => {
                            let d = d as usize;
                            if d < self.drivers.len() {
                                Some(self.drivers[d].name_as_bytes().len())
                            } else {
                                None
                            }
                        },
                        None => None,
                    }
                } else {
                    None
                }
            },
        }
    }

    /// Handles the interrupt with number `code`.  A port's interrupt goes to
    /// that port.  An interrupt registered to a driver spawns the driver's
    /// `interrupt` task (priority 1, its name as payload, the next packet id)
    /// when the memory had for it can hold it, and disables the interrupt
    /// until the driver has handled it.  Other interrupts are ignored.
    pub fn interrupt_handler(&mut self, code: usize, mem: Option<TaskMemory>) -> (r: InterruptOutcome)
        requires
            old(self).wf(),
            mem.is_some() ==> old(self).next_task_id() < usize::MAX,
        ensures
            final(self).wf(),
            final(self).same_but_tasks(old(self)),
            final(self).kernel_context() == old(self).kernel_context(),
            final(self).next_packet_id() == old(self).next_packet_id(),
            match first_port(old(self).port_interrupts(), code) {
                Some(j) => (r matches InterruptOutcome::Port(k) && k == j)
                    && final(self).tasks() == old(self).tasks()
                    && final(self).next_task_id() == old(self).next_task_id(),
                None => r is Actions && match driver_of_interrupt(old(self).interrupts(), old(self).drivers(), code) {
                    Some(d) => match usable(mem, old(self).drivers()[d].name_bytes().len()) {
                        Some(m) => {
                            let driver = old(self).drivers()[d];
                            let p = new_model(0, old(self).next_packet_id(), 0, 0, Message::Invoke, driver.name_bytes());
                            let t0 = new_task_model(p, 1, driver.spec_interrupt_addr(), old(self).next_task_id(), m);
                            let t = TaskModel {
                                context: driver_context(t0.context, driver.spec_driver_struct().unwrap()),
                                ..t0
                            };
                            &&& final(self).tasks() == old(self).tasks().insert(add_index(old(self).tasks(), 1), t)
                            &&& final(self).next_task_id() == old(self).next_task_id() + 1
                            &&& actions_view(r->Actions_0@) == seq![ActionModel::DisableInterrupt(code as u8)]
                        },
                        None => final(self).tasks() == old(self).tasks()
                            && final(self).next_task_id() == old(self).next_task_id()
                            && actions_view(r->Actions_0@) == Seq::<ActionModel>::empty(),
                    },
                    None => final(self).tasks() == old(self).tasks()
                        && final(self).next_task_id() == old(self).next_task_id()
                        && actions_view(r->Actions_0@) == Seq::<ActionModel>::empty(),
                },
            },
    {
        match self.find_port(code) {
            Some(j) => InterruptOutcome::Port(j),
            None => {
                let mut actions: Vec<KernelAction> = Vec::new();
                if code < INTERRUPT_SLOTS {
                    match self.interrupts[code] {
                        Some(d) => {
                            let d = d as usize;
                            if d < self.drivers.len() {
                                let driver = self.drivers[d];
                                let made = match mem {
                                    Some(m) => {
                                        let name = to_vec(driver.name_as_bytes());
                                        let packet = Packet::new(0, self.packet_id, 0, 0, Message::Invoke, name);
                                        Task::new(packet, 1, driver.interrupt_addr(), self.task_id, m)
                                    },
                                    None => None,
                                };
                                match made {
                                    Some(mut task) => {
                                        self.task_id = self.task_id + 1;
                                        proof {
                                            assert(self.drivers@[d as int].spec_driver_struct().is_some());
                                        }
                                        let driver_struct = driver.driver_struct().unwrap();
                                        task.for_driver(driver_struct);
                                        actions.push(KernelAction::DisableInterrupt(code as u8));
                                        proof {
                                            lemma_add_keeps_sorted(self.scheduler.tasks(), task@);
                                        }
                                        self.scheduler.add(task);
                                        proof {
                                            assert(actions_view(actions@) =~= seq![ActionModel::DisableInterrupt(code as u8)]);
                                        }
                                    },
                                    None => {},
                                }
                            }
                        },
                        None => {},
                    }
                }
                proof {
                    if actions@.len() == 0 {
                        assert(actions_view(actions@) =~= Seq::<ActionModel>::empty());
                    }
                }
                InterruptOutcome::Actions(actions)
            },
        }
    }

    /// Dispatches a packet the port `i` handed on and queues the reply's
    /// frame for port `i`.
    fn dispatch_packet(&mut self, i: usize, q: Packet, mem: Option<TaskMemory>, actions: &mut Vec<KernelAction>)
        requires
            forall|j: int| 0 <= j < old(self).drivers@.len() ==> (#[trigger] old(self).drivers@[j]).spec_driver_struct().is_some(),
            sorted(old(self).tasks()),
            (q.msg_type == Message::Invoke || q.msg_type == Message::KernelVersion) ==> q.packet_id < u16::MAX,
            old(self).packet_id + reply_writes(
                i,
                dispatch(old(self).apps@, old(self).drivers@, old(self).tasks(), old(self).task_id, q@, mem).2,
            ).len() <= u16::MAX,
            mem.is_some() ==> old(self).task_id < usize::MAX,
        ensures
            ({
                let d = dispatch(old(self).apps@, old(self).drivers@, old(self).tasks(), old(self).task_id, q@, mem);
                let w = reply_writes(i, d.2);
                &&& final(self).tasks() == d.0
                &&& sorted(d.0)
                &&& final(self).task_id == d.1
                &&& actions_view(final(actions)@) == actions_view(old(actions)@) + w
                &&& final(self).packet_id == old(self).packet_id + w.len()
            }),
            final(self).context == old(self).context,
            final(self).apps == old(self).apps,
            final(self).drivers == old(self).drivers,
            final(self).interrupts == old(self).interrupts,
            final(self).ports == old(self).ports,
            final(self).port_interrupts == old(self).port_interrupts,
            final(self).claims == old(self).claims,
            final(self).clock == old(self).clock,
    {
        if q.msg_type == Message::Invoke {
            proof {
                lemma_invoke_keeps_sorted(self.apps@, self.drivers@, self.tasks(), self.task_id, q@, mem);
            }
            let resp = handle_invoke(&self.apps, &self.drivers, &mut self.scheduler, &mut self.task_id, q, mem);
            match resp {
                Some(rp) => {
                    self.respond(i, &rp, actions);
                },
                None => {
                    proof {
                        assert(actions_view(actions@) =~= actions_view(old(actions)@) + reply_writes(i, None));
                    }
                },
            }
        } else if q.msg_type == Message::KernelVersion {
            let reply = Packet::new(0, q.packet_id + 1, q.dst, q.src, Message::Reply, vec![KERNEL_MAJOR, KERNEL_MINOR]);
            proof {
                assert(reply@.payload =~= seq![KERNEL_MAJOR, KERNEL_MINOR]);
                assert(reply@ == version_reply(q@));
            }
            self.respond(i, &reply, actions);
        } else {
            let reply = Packet {
                version: PROTOCOL_VERSION,
                flags: ERROR,
                packet_id: 0,
                src: 0,
                dst: 0,
                ttl: 0,
                msg_type: Message::Reply,
                payload: not_implemented_bytes(),
            };
            self.respond(i, &reply, actions);
        }
    }

    /// Whether the kernel can handle packet `p` on a port holding `frags`,
    /// given the allocator's answer `reserve_ok` to the room asked for the
    /// fragments, without running out of packet or task ids: the port's
    /// replies (see [`can_handle`]), and for a packet it hands on, the
    /// kernel's reply when one is sent, the packet's next id when an
    /// invocation or version request is answered from it, and a task id when
    /// an invocation may make a task.
    pub open spec fn port_ready(&self, frags: Seq<u8>, p: PacketModel, mem: Option<TaskMemory>, reserve_ok: bool) -> bool {
        let o = port_outcome(frags, p, reserve_ok);
        &&& can_handle(frags, p, self.next_packet_id(), reserve_ok)
        &&& match o.1 {
            None => true,
            Some(q) => {
                let d = dispatch(self.apps(), self.drivers(), self.tasks(), self.next_task_id(), q, mem);
                &&& (q.msg_type == Message::Invoke || q.msg_type == Message::KernelVersion) ==> q.packet_id < u16::MAX
                &&& self.next_packet_id() + port_ids(frags, p, reserve_ok) + reply_writes(0, d.2).len() <= u16::MAX
                &&& q.msg_type == Message::Invoke && mem.is_some() ==> self.next_task_id() < usize::MAX
            },
        }
    }

    /// Whether the kernel answers a packet it dispatches (see [`dispatch`]).
    fn dispatch_replies(&self, q: &Packet, mem: Option<TaskMemory>) -> (r: bool)
        ensures
            r == dispatch(self.apps@, self.drivers@, self.tasks(), self.task_id, q@, mem).2.is_some(),
    {
        if q.msg_type == Message::Invoke {
            proof {
                lemma_invoke_replies(self.apps@, self.drivers@, self.tasks(), self.task_id, q@, mem);
            }
            invoke_needs_reply(&self.apps, &self.drivers, q, mem)
        } else {
            true
        }
    }

    /// Handles the bytes that port `i` received (see [`port_step`]), with
    /// the allocator's answer to the room the port asks for fragments.
    /// `None` when the room to ask for cannot be counted, or when the ids
    /// the packet uses up would run out (see [`Kernel::port_ready`]); the
    /// kernel is then left as it was.
    #[verifier::rlimit(60)]
    #[verifier::spinoff_prover]
    pub fn port_handler(&mut self, i: usize, received: &[u8], mem: Option<TaskMemory>) -> (r: Option<Vec<KernelAction>>)
        requires
            old(self).wf(),
            i < old(self).port_count(),
            decodable(received@),
        ensures
            final(self).wf(),
            final(self).apps() == old(self).apps(),
            final(self).drivers() == old(self).drivers(),
            final(self).interrupts() == old(self).interrupts(),
            final(self).kernel_context() == old(self).kernel_context(),
            final(self).port_count() == old(self).port_count(),
            forall|j: int| 0 <= j < final(self).port_count() && j != i ==> final(self).fragments(j) == old(self).fragments(j),
            final(self).port_interrupts() == old(self).port_interrupts(),
            final(self).claims() == old(self).claims(),
            final(self).spec_clock() == old(self).spec_clock(),
            received@.len() == 0 || spaceport_decode(received@) is None ==> {
                &&& r.is_some() && actions_view(r.unwrap()@) == Seq::<ActionModel>::empty()
                &&& final(self).fragments(i as int) == old(self).fragments(i as int)
                &&& final(self).tasks() == old(self).tasks()
                &&& final(self).next_packet_id() == old(self).next_packet_id()
                &&& final(self).next_task_id() == old(self).next_task_id()
            },
            received@.len() > 0 && spaceport_decode(received@) is Some ==> {
                let p = decoded(received@);
                let frags = old(self).fragments(i as int);
                let unchanged = {
                    &&& final(self).fragments(i as int) == frags
                    &&& final(self).tasks() == old(self).tasks()
                    &&& final(self).next_packet_id() == old(self).next_packet_id()
                    &&& final(self).next_task_id() == old(self).next_task_id()
                };
                &&& !can_append(frags, p) ==> r.is_none() && unchanged
                &&& can_append(frags, p) ==> exists|ok: bool|
                    #[trigger] old(self).port_ready(frags, p, mem, ok) == r.is_some() && {
                        &&& !appends(frags, p) ==> ok
                        &&& r.is_none() ==> unchanged
                        &&& r.is_some() ==> port_step(
                            frags,
                            p,
                            ok,
                            i,
                            old(self).apps(),
                            old(self).drivers(),
                            old(self).tasks(),
                            old(self).next_task_id(),
                            old(self).next_packet_id(),
                            mem,
                        ) == (
                            final(self).fragments(i as int),
                            final(self).tasks(),
                            final(self).next_task_id(),
                            actions_view(r.unwrap()@),
                            final(self).next_packet_id() as nat,
                        )
                    }
            },
    {
        if received.len() == 0 {
            let a: Vec<KernelAction> = Vec::new();
            proof {
                assert(actions_view(a@) =~= Seq::<ActionModel>::empty());
            }
            return Some(a);
        }
        let p = match Packet::decode(received) {
            Some(p) => p,
            None => {
                let a: Vec<KernelAction> = Vec::new();
                proof {
                    assert(actions_view(a@) =~= Seq::<ActionModel>::empty());
                }
                return Some(a);
            },
        };
        let ghost frags = self.ports@[i as int].fragments@;
        let ghost pm = p@;
        let ghost old_tasks = self.tasks();
        let ghost old_tid = self.task_id;
        let ghost old_pid = self.packet_id;
        proof {
            assert(pm == decoded(received@));
        }
        let appending = p.contains(FRAGMENTED) || self.ports[i].fragments.len() > 0;
        if appending && self.ports[i].fragments.len() > usize::MAX - p.payload.len() {
            return None;
        }
        let mut port = self.ports.remove(i);
        let reserved = if appending {
            Port::reserve_fragments(&mut port.fragments, p.payload.len())
        } else {
            true
        };
        let ack: u16 = if p.contains(ACK_REQUIRED) { 1 } else { 0 };
        let refused: u16 = if appending && !reserved { 1 } else { 0 };
        let needed: u16 = ack + refused;
        if (needed > 0 && p.packet_id == u16::MAX) || self.packet_id > u16::MAX - needed {
            self.ports.insert(i, port);
            proof {
                assert(self.ports@ =~= old(self).ports@.update(i as int, self.ports@[i as int]));
                assert(!old(self).port_ready(frags, pm, mem, reserved));
            }
            return None;
        }
        let saved_frags = to_vec(port.fragments.as_slice());
        let saved_pid = self.packet_id;
        let (delivered, writes) = port.handle_with(p, &mut self.packet_id, reserved);
        let mut actions = frames_to_actions(i, &writes);
        match delivered {
            Some(q) => {
                let answered = q.msg_type == Message::Invoke || q.msg_type == Message::KernelVersion;
                let replies: u16 = if self.dispatch_replies(&q, mem) { 1 } else { 0 };
                let invoking_with_memory = q.msg_type == Message::Invoke && mem.is_some();
                proof {
                    assert(reply_writes(0, dispatch(self.apps@, self.drivers@, old_tasks, old_tid, q@, mem).2).len() == replies) by {
                        lemma_kernel_replies_encode(self.apps@, self.drivers@, old_tasks, old_tid, q@, mem);
                    }
                }
                if (answered && q.packet_id == u16::MAX) || self.packet_id > u16::MAX - replies
                    || (invoking_with_memory && self.task_id == usize::MAX) {
                    port.fragments = saved_frags;
                    self.packet_id = saved_pid;
                    self.ports.insert(i, port);
                    proof {
                        assert(self.ports@ =~= old(self).ports@.update(i as int, self.ports@[i as int]));
                        assert(!old(self).port_ready(frags, pm, mem, reserved));
                    }
                    return None;
                }
                let q_mem = if q.msg_type == Message::Invoke { mem } else { None };
                proof {
                    assert(dispatch(self.apps@, self.drivers@, old_tasks, old_tid, q@, q_mem)
                        == dispatch(self.apps@, self.drivers@, old_tasks, old_tid, q@, mem));
                }
                self.dispatch_packet(i, q, q_mem, &mut actions);
                port.fragments = Vec::new();
            },
            None => {},
        }
        self.ports.insert(i, port);
        proof {
            assert forall|j: int| 0 <= j < self.ports@.len() && j != i implies self.ports@[j].fragments@ == old(self).ports@[j].fragments@ by {
            }
            assert(old(self).port_ready(frags, pm, mem, reserved));
            assert(port_step(frags, pm, reserved, i, self.apps@, self.drivers@, old_tasks, old_tid, old_pid, mem) == (
                self.ports@[i as int].fragments@,
                self.tasks(),
                self.task_id,
                actions_view(actions@),
                self.packet_id as nat,
            ));
        }
        Some(actions)
    }

    /// Whether a system call can be handled: a task is running, its resume
    /// address has room for the `ecall` to be skipped, the memory read for the
    /// call matches the lengths in its registers, and the packet and task ids
    /// the call uses up do not run out (a finished task's reply also needs a
    /// port to go to).
    pub open spec fn syscall_ready(&self, saved: Context, first: Seq<u8>, second: Seq<u8>, mem: Option<TaskMemory>) -> bool {
        &&& self.tasks().len() > 0
        &&& saved.mepc + 4 <= usize::MAX
        &&& match syscall_of(saved.a0) {
            Some(SysCall::ReturnMain) => {
                &&& self.tasks()[0].packet.packet_id < u16::MAX
                &&& self.port_count() > 0
                &&& self.next_packet_id() < u16::MAX
            },
            Some(SysCall::Send) => {
                &&& self.tasks()[0].packet.packet_id < u16::MAX
                &&& first.len() == saved.a2
                &&& first.len() <= MAX_PAYLOAD_LENGTH ==> self.port_count() > 0 && self.next_packet_id() < u16::MAX
            },
            Some(SysCall::SendAll) => {
                &&& self.tasks()[0].packet.packet_id < u16::MAX
                &&& first.len() == saved.a2
                &&& first.len() <= MAX_PAYLOAD_LENGTH ==> self.next_packet_id() + self.port_count() <= u16::MAX
            },
            Some(SysCall::InvokeLocal) => {
                &&& first.len() == saved.a2
                &&& second.len() == saved.a4
                &&& first.len() + 1 + second.len() <= usize::MAX
                &&& self.next_packet_id() < u16::MAX
                &&& mem.is_some() ==> self.next_task_id() < usize::MAX
            },
            Some(SysCall::Invoke) => {
                &&& first.len() == saved.a2
                &&& second.len() == saved.a4
                &&& first.len() + 1 + second.len() <= usize::MAX
                &&& self.next_packet_id() + 1 + self.port_count() <= u16::MAX
            },
            _ => true,
        }
    }

    /// How many ports the kernel has.
    pub fn num_ports(&self) -> (r: usize)
        requires
            self.wf(),
        ensures
            r == self.port_count(),
    {
        self.ports.len()
    }

    /// Whether [`Kernel::syscall_handler`] can take these arguments (see
    /// [`Kernel::syscall_ready`]).
    pub fn syscall_can_run(&self, saved: Context, first: &[u8], second: &[u8], mem: Option<TaskMemory>) -> (r: bool)
        ensures
            r == self.syscall_ready(saved, first@, second@, mem),
    {
        if self.scheduler.len() == 0 || saved.mepc > usize::MAX - 4 {
            return false;
        }
        let front_id = self.scheduler.get(0).header.packet.packet_id;
        match SysCall::decode(saved.a0) {
            Some(SysCall::ReturnMain) => front_id < u16::MAX && self.ports.len() > 0 && self.packet_id < u16::MAX,
            Some(SysCall::Send) => {
                front_id < u16::MAX && first.len() == saved.a2 && (first.len() > MAX_PAYLOAD_LENGTH || (
                self.ports.len() > 0 && self.packet_id < u16::MAX))
            },
            Some(SysCall::SendAll) => {
                front_id < u16::MAX && first.len() == saved.a2 && (first.len() > MAX_PAYLOAD_LENGTH || (
                self.ports.len() <= u16::MAX as usize && self.packet_id as usize <= u16::MAX as usize
                    - self.ports.len()))
            },
            Some(SysCall::InvokeLocal) => {
                first.len() == saved.a2 && second.len() == saved.a4 && first.len() < usize::MAX && second.len()
                    <= usize::MAX - 1 - first.len() && self.packet_id < u16::MAX && (mem.is_none()
                    || self.task_id < usize::MAX)
            },
            Some(SysCall::Invoke) => {
                first.len() == saved.a2 && second.len() == saved.a4 && first.len() < usize::MAX && second.len()
                    <= usize::MAX - 1 - first.len() && self.ports.len() < u16::MAX as usize && self.packet_id as usize
                    <= u16::MAX as usize - 1 - self.ports.len()
            },
            _ => true,
        }
    }

    /// Everything the system call handler leaves alone.
    pub open spec fn same_registry(&self, other: &Kernel<'k>) -> bool {
        &&& self.apps() == other.apps()
        &&& self.drivers() == other.drivers()
        &&& self.port_count() == other.port_count()
        &&& (forall|i: int| 0 <= i < self.port_count() ==> self.fragments(i) == other.fragments(i))
        &&& self.port_interrupts() == other.port_interrupts()
        &&& self.claims() == other.claims()
        &&& self.spec_clock() == other.spec_clock()
    }

    /// Handles a system call of the running (front) task, whose registers the
    /// trap saved in `saved`; `first` and `second` are the memory its
    /// registers `a1`/`a2` and `a3`/`a4` point at, for the calls that read
    /// memory, and `mem` the memory had for a task the call may create.  The
    /// task resumes after its `ecall`; then, by the number in `a0`:
    /// - `ReturnMain`: the task is done.  It leaves the queue, the first task
    ///   blocked on it gets its result and is ready, its packet is answered on
    ///   port 0 with its payload length, and the kernel resumes its idle loop.
    /// - `ReturnInit`: the task leaves the queue.
    /// - `ReturnInterrupt`: the task leaves the queue and the interrupts of
    ///   the driver it ran are enabled again.
    /// - `RegisterInterrupt`: interrupt `a1` is registered to the driver the
    ///   task runs and enabled.
    /// - `NumPorts`: the task gets the number of ports in `a0`.
    /// - `Send`: the task's packet is answered on port 0 with `first`.
    /// - `SendAll`: the task's packet is answered with `first` on every
    ///   port, in order.
    /// - `InvokeLocal`: when an application or driver is named `first`, a
    ///   new task that invokes it with `second`, one priority above the
    ///   caller, joins the queue and the caller waits for it (when the memory
    ///   had for it can hold it); otherwise the caller gets `usize::MAX` in
    ///   `a0`.
    /// - `Invoke`: a packet invoking `first` with `second` goes out on every
    ///   port, padded to a full buffer; the task gets its frame length in
    ///   `a0` (0 when it does not encode).
    /// - any other number (`Delay`, `Await`, `AwaitAll`, `MemAlloc`,
    ///   `ClaimPeripheral` and unknown numbers): nothing more.
    pub fn syscall_handler(&mut self, saved: Context, first: &[u8], second: &[u8], mem: Option<TaskMemory>) -> (r: Vec<KernelAction>)
        requires
            old(self).wf(),
            old(self).syscall_ready(saved, first@, second@, mem),
        ensures
            final(self).wf(),
            final(self).same_registry(old(self)),
            ({
                let t = trapped(old(self).tasks(), saved);
                let front = t[0];
                let pid = old(self).next_packet_id();
                let same_ids = final(self).next_packet_id() == pid && final(self).next_task_id() == old(self).next_task_id();
                let same_kernel = final(self).kernel_context() == old(self).kernel_context() && final(self).interrupts() == old(self).interrupts();
                match syscall_of(saved.a0) {
                    Some(SysCall::ReturnMain) => {
                        let reply = reply_model(front.packet, 0, Message::Reply, usize_le_bytes(front.packet.payload.len() as usize));
                        &&& final(self).tasks() == finish_front(t)
                        &&& final(self).kernel_context() == Context { a1: 0, ..old(self).kernel_context() }
                        &&& final(self).interrupts() == old(self).interrupts()
                        &&& actions_view(r@) == seq![ActionModel::ResumeAtWait, ActionModel::Write(0, encoded(reply))]
                        &&& final(self).next_packet_id() == pid + 1
                        &&& final(self).next_task_id() == old(self).next_task_id()
                    },
                    Some(SysCall::ReturnInit) => {
                        &&& final(self).tasks() == t.subrange(1, t.len() as int)
                        &&& same_kernel && same_ids
                        &&& actions_view(r@) == Seq::<ActionModel>::empty()
                    },
                    Some(SysCall::ReturnInterrupt) => {
                        &&& final(self).tasks() == t.subrange(1, t.len() as int)
                        &&& same_kernel && same_ids
                        &&& actions_view(r@) == match find_named(old(self).drivers(), front.packet.payload) {
                            Some(d) => enables_for(old(self).interrupts(), d as u8),
                            None => Seq::<ActionModel>::empty(),
                        }
                    },
                    Some(SysCall::RegisterInterrupt) => {
                        &&& final(self).tasks() == t
                        &&& same_ids
                        &&& final(self).kernel_context() == old(self).kernel_context()
                        &&& match find_named(old(self).drivers(), front.packet.payload) {
                            Some(d) => if saved.a1 < INTERRUPT_SLOTS {
                                &&& final(self).interrupts() == old(self).interrupts().update(saved.a1 as int, Some(d as u8))
                                &&& actions_view(r@) == seq![ActionModel::EnableInterrupt(saved.a1 as u8)]
                            } else {
                                &&& final(self).interrupts() == old(self).interrupts()
                                &&& actions_view(r@) == Seq::<ActionModel>::empty()
                            },
                            None => {
                                &&& final(self).interrupts() == old(self).interrupts()
                                &&& actions_view(r@) == Seq::<ActionModel>::empty()
                            },
                        }
                    },
                    Some(SysCall::Send) => {
                        let w = reply_writes(0, Some(reply_model(front.packet, 0, Message::Reply, first@)));
                        &&& final(self).tasks() == t
                        &&& same_kernel
                        &&& actions_view(r@) == w
                        &&& final(self).next_packet_id() == pid + w.len()
                        &&& final(self).next_task_id() == old(self).next_task_id()
                    },
                    Some(SysCall::NumPorts) => {
                        &&& final(self).tasks() == t.update(0, TaskModel { context: Context { a0: old(self).port_count() as usize, ..front.context }, ..front })
                        &&& same_kernel && same_ids
                        &&& actions_view(r@) == Seq::<ActionModel>::empty()
                    },
                    Some(SysCall::SendAll) => {
                        let reply = reply_model(front.packet, 0, Message::Reply, first@);
                        &&& final(self).tasks() == t
                        &&& same_kernel
                        &&& final(self).next_task_id() == old(self).next_task_id()
                        &&& if first@.len() <= MAX_PAYLOAD_LENGTH {
                            &&& actions_view(r@) == broadcast_writes(old(self).port_count(), encoded(reply))
                            &&& final(self).next_packet_id() == pid + old(self).port_count()
                        } else {
                            &&& actions_view(r@) == Seq::<ActionModel>::empty()
                            &&& final(self).next_packet_id() == pid
                        }
                    },
                    Some(SysCall::InvokeLocal) => {
                        let found = find_named(old(self).apps(), first@).is_some()
                            || find_named(old(self).drivers(), first@).is_some();
                        let payload = invocation(first@, second@);
                        &&& same_kernel
                        &&& actions_view(r@) == Seq::<ActionModel>::empty()
                        &&& if !found {
                            &&& final(self).tasks() == t.update(0, TaskModel { context: Context { a0: usize::MAX, ..front.context }, ..front })
                            &&& same_ids
                        } else {
                            &&& final(self).next_packet_id() == pid + 1
                            &&& match usable(mem, payload.len()) {
                                Some(m) => {
                                    let n = local_task(old(self).apps(), old(self).drivers(), first@, payload, pid, raised(front.priority), old(self).next_task_id(), m);
                                    let waiting = t.update(0, TaskModel { state: TaskState::Blocked(old(self).next_task_id()), ..front });
                                    &&& final(self).tasks() == waiting.insert(add_index(waiting, n.priority), n)
                                    &&& final(self).next_task_id() == old(self).next_task_id() + 1
                                },
                                None => {
                                    &&& final(self).tasks() == t
                                    &&& final(self).next_task_id() == old(self).next_task_id()
                                },
                            }
                        }
                    },
                    Some(SysCall::Invoke) => {
                        let payload = invocation(first@, second@);
                        let packet = new_model(0, pid, 0, 0, Message::Invoke, payload);
                        &&& same_kernel
                        &&& final(self).next_task_id() == old(self).next_task_id()
                        &&& if payload.len() <= MAX_PAYLOAD_LENGTH {
                            let frame = encoded(packet);
                            &&& actions_view(r@) == broadcast_writes(old(self).port_count(), padded(frame))
                            &&& final(self).next_packet_id() == pid + 1 + old(self).port_count()
                            &&& final(self).tasks() == t.update(0, TaskModel { context: Context { a0: frame.len() as usize, ..front.context }, ..front })
                        } else {
                            &&& actions_view(r@) == Seq::<ActionModel>::empty()
                            &&& final(self).next_packet_id() == pid + 1
                            &&& final(self).tasks() == t.update(0, TaskModel { context: Context { a0: 0, ..front.context }, ..front })
                        }
                    },
                    _ => {
                        &&& final(self).tasks() == t
                        &&& same_kernel && same_ids
                        &&& actions_view(r@) == Seq::<ActionModel>::empty()
                    },
                }
            }),
    {
        let mut actions: Vec<KernelAction> = Vec::new();
        let mut context = saved;
        context.mepc = saved.mepc + 4;
        self.scheduler.set_context(0, context);
        let ghost t = self.scheduler.tasks();
        proof {
            assert(t == trapped(old(self).tasks(), saved));
        }
        match SysCall::decode(saved.a0) {
            Some(SysCall::ReturnMain) => {
                actions.push(KernelAction::ResumeAtWait);
                self.context.a1 = 0;
                let task = self.scheduler.pop().unwrap();
                proof {
                    lemma_first_blocked(t.subrange(1, t.len() as int), task@.task_id);
                }
                match self.scheduler.find_blocked_on(task.header.task_id) {
                    Some(b) => {
                        let mut bc = self.scheduler.get(b).header.context;
                        bc.a0 = task.header.context.a1;
                        self.scheduler.set_context(b, bc);
                        self.scheduler.set_state(b, TaskState::Ready);
                        proof {
                            assert(first_blocked(t.subrange(1, t.len() as int), task@.task_id) == Some(b as int));
                        }
                    },
                    None => {},
                }
                let len_bytes = to_le_bytes(task.header.packet.payload.len());
                let reply = task.header.packet.reply(len_bytes);
                self.respond(0, &reply, &mut actions);
                proof {
                    assert(actions_view(actions@) =~= seq![ActionModel::ResumeAtWait, ActionModel::Write(0, encoded(reply@))]);
                }
            },
            Some(SysCall::ReturnInit) => {
                let _ = self.scheduler.pop();
            },
            Some(SysCall::ReturnInterrupt) => {
                let task = self.scheduler.pop().unwrap();
                match find_by_name(&self.drivers, task.header.packet.payload.as_slice()) {
                    Some(d) => {
                        let di = d as u8;
                        let mut i: usize = 0;
                        while i < INTERRUPT_SLOTS
                            invariant
                                i <= INTERRUPT_SLOTS,
                                self.interrupts@.len() == INTERRUPT_SLOTS,
                                actions_view(actions@) == enables_for(self.interrupts@.subrange(0, i as int), di),
                            decreases INTERRUPT_SLOTS - i,
                        {
                            let ghost prev = actions@;
                            match self.interrupts[i] {
                                Some(x) => {
                                    if x == di {
                                        actions.push(KernelAction::EnableInterrupt(i as u8));
                                    }
                                },
                                None => {},
                            }
                            proof {
                                let s = self.interrupts@.subrange(0, i + 1);
                                assert(s.drop_last() =~= self.interrupts@.subrange(0, i as int));
                                assert(actions_view(actions@) =~= enables_for(s, di));
                            }
                            i = i + 1;
                        }
                        proof {
                            assert(self.interrupts@.subrange(0, INTERRUPT_SLOTS as int) =~= self.interrupts@);
                        }
                    },
                    None => {},
                }
            },
            Some(SysCall::RegisterInterrupt) => {
                let irq = self.scheduler.get(0).header.context.a1;
                match find_by_name(&self.drivers, self.scheduler.get(0).header.packet.payload.as_slice()) {
                    Some(d) => {
                        if irq < INTERRUPT_SLOTS {
                            self.interrupts[irq] = Some(d as u8);
                            actions.push(KernelAction::EnableInterrupt(irq as u8));
                            proof {
                                assert(actions_view(actions@) =~= seq![ActionModel::EnableInterrupt(irq as u8)]);
                            }
                        }
                    },
                    None => {},
                }
            },
            Some(SysCall::Send) => {
                let body = to_vec(first);
                let reply = self.scheduler.get(0).header.packet.reply(body);
                self.respond(0, &reply, &mut actions);
            },
            Some(SysCall::InvokeLocal) => {
                let mut payload = to_vec(first);
                payload.push(32u8);
                extend(&mut payload, second);
                let front = self.scheduler.get(0);
                let priority = front.header.priority.saturating_add(1);
                proof {
                    lemma_find_named_bounds(self.apps@, first@);
                    lemma_find_named_bounds(self.drivers@, first@);
                }
                let entry = match find_by_name(&self.apps, first) {
                    Some(a) => Some((self.apps[a].main_addr(), None)),
                    None => match find_by_name(&self.drivers, first) {
                        Some(d) => Some((self.drivers[d].main_addr(), Some(d))),
                        None => None,
                    },
                };
                proof {
                    assert(payload@ =~= invocation(first@, second@));
                }
                match entry {
                    Some((addr, driver)) => {
                        let packet_id = self.packet_id;
                        self.packet_id = self.packet_id + 1;
                        let made = match mem {
                            Some(m) => {
                                let packet = Packet::new(0, packet_id, 0, 0, Message::Invoke, payload);
                                Task::new(packet, priority, addr, self.task_id, m)
                            },
                            None => None,
                        };
                        match made {
                            Some(mut invoked) => {
                                self.task_id = self.task_id + 1;
                                match driver {
                                    Some(d) => {
                                        proof {
                                            lemma_find_named_bounds(old(self).drivers(), first@);
                                            assert(self.drivers@[d as int].spec_driver_struct().is_some());
                                        }
                                        let driver_struct = self.drivers[d].driver_struct().unwrap();
                                        invoked.for_driver(driver_struct);
                                    },
                                    None => {},
                                }
                                let ghost before = self.scheduler.tasks();
                                proof {
                                    lemma_update_keeps_sorted(before, 0, TaskModel { state: TaskState::Blocked(invoked@.task_id), ..before[0] });
                                }
                                self.scheduler.set_state(0, TaskState::Blocked(invoked.header.task_id));
                                proof {
                                    lemma_add_keeps_sorted(self.scheduler.tasks(), invoked@);
                                }
                                self.scheduler.add(invoked);
                            },
                            None => {},
                        }
                    },
                    None => {
                        let mut c = self.scheduler.get(0).header.context;
                        c.a0 = usize::MAX;
                        self.scheduler.set_context(0, c);
                    },
                }
            },
            Some(SysCall::NumPorts) => {
                let mut c = self.scheduler.get(0).header.context;
                c.a0 = self.ports.len();
                self.scheduler.set_context(0, c);
            },
            Some(SysCall::SendAll) => {
                let body = to_vec(first);
                let reply = self.scheduler.get(0).header.packet.reply(body);
                match reply.encode() {
                    Some(frame) => {
                        let nports = self.ports.len();
                        let start_id = self.packet_id;
                        let mut next_id = start_id;
                        let mut j: usize = 0;
                        proof {
                            assert(actions_view(actions@) =~= broadcast_writes(0, frame@));
                        }
                        while j < nports
                            invariant
                                j <= nports,
                                next_id == start_id + j,
                                start_id + nports <= u16::MAX,
                                actions_view(actions@) == broadcast_writes(j as nat, frame@),
                            decreases nports - j,
                        {
                            let copy = to_vec(frame.as_slice());
                            let ghost prev = actions@;
                            actions.push(KernelAction::Write(j, copy));
                            proof {
                                assert(actions_view(actions@) =~= actions_view(prev).push(ActionModel::Write(j, frame@)));
                            }
                            next_id = next_id + 1;
                            j = j + 1;
                            proof {
                                assert(actions_view(actions@) =~= broadcast_writes(j as nat, frame@));
                            }
                        }
                        self.packet_id = next_id;
                    },
                    None => {},
                }
            },
            Some(SysCall::Invoke) => {
                let mut payload = to_vec(first);
                payload.push(32u8);
                extend(&mut payload, second);
                proof {
                    assert(payload@ =~= invocation(first@, second@));
                }
                let packet_id = self.packet_id;
                self.packet_id = self.packet_id + 1;
                let packet = Packet::new(0, packet_id, 0, 0, Message::Invoke, payload);
                let mut c = self.scheduler.get(0).header.context;
                match packet.encode() {
                    Some(frame) => {
                        let size = frame.len();
                        let mut arr = to_vec(frame.as_slice());
                        while arr.len() < MAX_BUFFER_LENGTH
                            invariant
                                frame@.len() <= arr@.len() <= MAX_BUFFER_LENGTH,
                                arr@.subrange(0, frame@.len() as int) == frame@,
                                forall|k: int| frame@.len() <= k < arr@.len() ==> arr@[k] == 0u8,
                            decreases MAX_BUFFER_LENGTH - arr@.len(),
                        {
                            arr.push(0u8);
                            proof {
                                assert(arr@.subrange(0, frame@.len() as int) =~= arr@.drop_last().subrange(0, frame@.len() as int));
                            }
                        }
                        proof {
                            assert(arr@ =~= padded(frame@));
                        }
                        let mut j: usize = 0;
                        let nports = self.ports.len();
                        let mut next_id = self.packet_id;
                        while j < nports
                            invariant
                                j <= nports,
                                next_id == packet_id + 1 + j,
                                packet_id + 1 + nports <= u16::MAX,
                                actions_view(actions@) == broadcast_writes(j as nat, arr@),
                            decreases nports - j,
                        {
                            let copy = to_vec(arr.as_slice());
                            let ghost prev = actions@;
                            actions.push(KernelAction::Write(j, copy));
                            proof {
                                assert(actions_view(actions@) =~= actions_view(prev).push(ActionModel::Write(j, arr@)));
                            }
                            next_id = next_id + 1;
                            j = j + 1;
                            proof {
                                assert(actions_view(actions@) =~= broadcast_writes(j as nat, arr@));
                            }
                        }
                        self.packet_id = next_id;
                        c.a0 = size;
                    },
                    None => {
                        c.a0 = 0;
                    },
                }
                self.scheduler.set_context(0, c);
            },
            _ => {},
        }
        proof {
            if actions@.len() == 0 {
                assert(actions_view(actions@) =~= Seq::<ActionModel>::empty());
            }
        }
        actions
    }

    /// Marks the front task ready and hands out the registers to resume it
    /// with; `None` when no task is queued (the kernel then idles).
    pub fn setup_event_loop(&mut self) -> (r: Option<Context>)
        ensures
            final(self).same_but_tasks(old(self)),
            final(self).next_task_id() == old(self).next_task_id(),
            final(self).next_packet_id() == old(self).next_packet_id(),
            final(self).kernel_context() == old(self).kernel_context(),
            old(self).wf() ==> final(self).wf(),
            old(self).tasks().len() == 0 ==> r.is_none() && final(self).tasks() == old(self).tasks(),
            old(self).tasks().len() > 0 ==> r == Some(old(self).tasks()[0].context)
                && final(self).tasks() == old(self).tasks().update(
                    0,
                    TaskModel { state: TaskState::Ready, ..old(self).tasks()[0] },
                ),
    {
        if self.scheduler.len() == 0 {
            return None;
        }
        let context = self.scheduler.get(0).header.context;
        self.scheduler.set_state(0, TaskState::Ready);
        Some(context)
    }
}

} // verus!
