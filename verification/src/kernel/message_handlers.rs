//! Handling an `Invoke` packet: finding the named application or driver and
//! queueing a task for it.
use vstd::prelude::*;
use crate::application_container::AppContainer;
use crate::kernel::scheduler::{Scheduler, add_index};
use crate::protocol::{Packet, PacketModel, Message, new_model, ERROR};
use crate::task::{Task, TaskModel, TaskMemory, new_task_model, driver_context, usable, memory_fits};
use crate::bytes::bytes_eq;

verus! {

/// Text of the reply when no memory was had for a task.
pub open spec fn no_task_text() -> Seq<u8> {
    seq![67u8, 111, 117, 108, 100, 32, 110, 111, 116, 32, 99, 114, 101, 97, 116, 101, 32, 116, 97, 115, 107]
}

/// Text of the reply when nothing has the invoked name.
pub open spec fn unknown_name_text() -> Seq<u8> {
    seq![85u8, 110, 107, 110, 111, 119, 110, 32, 110, 97, 109, 101]
}

pub fn no_task_bytes() -> (r: Vec<u8>)
    ensures
        r@ == no_task_text(),
{
    let r: Vec<u8> = vec![67u8, 111, 117, 108, 100, 32, 110, 111, 116, 32, 99, 114, 101, 97, 116, 101, 32, 116, 97, 115, 107];
    proof {
        assert(r@ =~= no_task_text());
    }
    r
}

pub fn unknown_name_bytes() -> (r: Vec<u8>)
    ensures
        r@ == unknown_name_text(),
{
    let r: Vec<u8> = vec![85u8, 110, 107, 110, 111, 119, 110, 32, 110, 97, 109, 101];
    proof {
        assert(r@ =~= unknown_name_text());
    }
    r
}

/// The index of the first space in `s`, if any.
pub open spec fn first_space(s: Seq<u8>) -> Option<int>
    decreases s.len(),
{
    if s.len() == 0 {
        None
    } else if s.last() == 32u8 && first_space(s.drop_last()).is_none() {
        Some(s.len() - 1)
    } else {
        first_space(s.drop_last())
    }
}

/// The name an `Invoke` payload addresses: everything before its first space.
pub open spec fn invoked_name(s: Seq<u8>) -> Seq<u8> {
    match first_space(s) {
        Some(i) => s.subrange(0, i),
        None => s,
    }
}

/// The argument of an `Invoke` payload: everything after its first space,
/// nothing when it has none.
pub open spec fn invoked_arg(s: Seq<u8>) -> Seq<u8> {
    match first_space(s) {
        Some(i) => s.subrange(i + 1, s.len() as int),
        None => Seq::empty(),
    }
}

/// The index of the first application or driver with the given name.
pub open spec fn find_named<'k>(apps: Seq<AppContainer<'k>>, name: Seq<u8>) -> Option<int>
    decreases apps.len(),
{
    if apps.len() == 0 {
        None
    } else {
        match find_named(apps.drop_last(), name) {
            Some(i) => Some(i),
            None => if apps.last().name_bytes() == name {
                Some(apps.len() - 1)
            } else {
                None
            },
        }
    }
}

proof fn lemma_first_space(s: Seq<u8>)
    ensures
        match first_space(s) {
            Some(i) => 0 <= i < s.len() && s[i] == 32u8 && forall|j: int|
                0 <= j < i ==> s[j] != 32u8,
            None => forall|j: int| 0 <= j < s.len() ==> s[j] != 32u8,
        },
    decreases s.len(),
{
    if s.len() > 0 {
        lemma_first_space(s.drop_last());
        assert(forall|j: int| 0 <= j < s.len() - 1 ==> s.drop_last()[j] == s[j]);
    }
}

pub proof fn lemma_find_named<'k>(apps: Seq<AppContainer<'k>>, name: Seq<u8>)
    ensures
        match find_named(apps, name) {
            Some(i) => 0 <= i < apps.len() && apps[i].name_bytes() == name && forall|j: int|
                0 <= j < i ==> apps[j].name_bytes() != name,
            None => forall|j: int| 0 <= j < apps.len() ==> apps[j].name_bytes() != name,
        },
    decreases apps.len(),
{
    if apps.len() > 0 {
        lemma_find_named(apps.drop_last(), name);
        assert(forall|j: int| 0 <= j < apps.len() - 1 ==> apps.drop_last()[j] == apps[j]);
    }
}

/// Splitting an `Invoke` payload that holds a space loses nothing: the name,
/// a space and the argument make up the payload again.
pub proof fn lemma_split_rejoins(s: Seq<u8>)
    requires
        first_space(s).is_some(),
    ensures
        invoked_name(s) + seq![32u8] + invoked_arg(s) == s,
        !invoked_name(s).contains(32u8),
{
    lemma_first_space(s);
    let i = first_space(s).unwrap();
    assert(invoked_name(s) + seq![32u8] + invoked_arg(s) =~= s);
    assert forall|j: int| 0 <= j < invoked_name(s).len() implies invoked_name(s)[j] != 32u8 by {}
}

/// An `Invoke` payload splits at its first space.  With a space, the name
/// (which holds no space), a space and the argument make up the payload
/// again; without one, the whole payload is the name and there is no
/// argument.
pub proof fn lemma_invocation_split(s: Seq<u8>)
    ensures
        s.contains(32u8) ==> invoked_name(s) + seq![32u8] + invoked_arg(s) == s && !invoked_name(s).contains(
            32u8,
        ) && invoked_arg(s).len() + invoked_name(s).len() + 1 == s.len(),
        !s.contains(32u8) ==> invoked_name(s) == s && invoked_arg(s) == Seq::<u8>::empty(),
{
    lemma_first_space(s);
    match first_space(s) {
        Some(i) => {
            lemma_split_rejoins(s);
            assert(s.contains(32u8));
            assert((invoked_name(s) + seq![32u8] + invoked_arg(s)).len() == s.len());
        },
        None => {
            assert(!s.contains(32u8));
        },
    }
}

/// The position of the first space in `s`.
pub fn find_space(s: &[u8]) -> (r: Option<usize>)
    ensures
        match r {
            Some(i) => first_space(s@) == Some(i as int),
            None => first_space(s@).is_none(),
        },
{
    let mut i: usize = 0;
    while i < s.len()
        invariant
            i <= s@.len(),
            forall|j: int| 0 <= j < i ==> s@[j] != 32u8,
        decreases s@.len() - i,
    {
        if s[i] == 32u8 {
            proof {
                lemma_first_space(s@);
                match first_space(s@) {
                    Some(k) => {
                        assert(k == i as int);
                    },
                    None => {},
                }
            }
            return Some(i);
        }
        i = i + 1;
    }
    proof {
        lemma_first_space(s@);
    }
    None
}

/// The index of the first application or driver named `name`.
pub fn find_by_name<'k>(apps: &Vec<AppContainer<'k>>, name: &[u8]) -> (r: Option<usize>)
    ensures
        match r {
            Some(i) => find_named(apps@, name@) == Some(i as int),
            None => find_named(apps@, name@).is_none(),
        },
{
    let mut i: usize = 0;
    while i < apps.len()
        invariant
            i <= apps@.len(),
            forall|j: int| 0 <= j < i ==> apps@[j].name_bytes() != name@,
        decreases apps@.len() - i,
    {
        let n = apps[i].name_as_bytes();
        if bytes_eq(n, name) {
            proof {
                lemma_find_named(apps@, name@);
                match find_named(apps@, name@) {
                    Some(k) => {
                        assert(k == i as int);
                    },
                    None => {},
                }
            }
            return Some(i);
        }
        i = i + 1;
    }
    proof {
        lemma_find_named(apps@, name@);
    }
    None
}

/// The queue, next task id and reply after handling an `Invoke` packet `p`:
/// the payload names an application (looked for first) or a driver, and
/// what follows the first space is the argument.  A task of priority 1 that
/// runs the entry point `main` with the argument as payload joins the queue
/// when the memory `mem` had for it can hold it (a driver's task also gets
/// the driver's state); otherwise an error reply goes back.  No reply is owed for a queued
/// task.
pub open spec fn invoke_outcome<'k>(
    apps: Seq<AppContainer<'k>>,
    drivers: Seq<AppContainer<'k>>,
    tasks: Seq<TaskModel>,
    task_id: usize,
    p: PacketModel,
    mem: Option<TaskMemory>,
) -> (Seq<TaskModel>, usize, Option<PacketModel>) {
    let name = invoked_name(p.payload);
    let arg = PacketModel { payload: invoked_arg(p.payload), ..p };
    let id = (p.packet_id + 1) as u16;
    let no_task = Some(new_model(ERROR, id, p.dst, p.src, Message::Reply, no_task_text()));
    match find_named(apps, name) {
        Some(i) => match usable(mem, arg.payload.len()) {
            Some(m) => {
                let t = new_task_model(arg, 1, apps[i].spec_main_addr(), task_id, m);
                (tasks.insert(add_index(tasks, 1), t), (task_id + 1) as usize, None)
            },
            None => (tasks, task_id, no_task),
        },
        None => match find_named(drivers, name) {
            Some(j) => match usable(mem, arg.payload.len()) {
                Some(m) => {
                    let t0 = new_task_model(arg, 1, drivers[j].spec_main_addr(), task_id, m);
                    let t = TaskModel {
                        context: driver_context(t0.context, drivers[j].spec_driver_struct().unwrap()),
                        ..t0
                    };
                    (tasks.insert(add_index(tasks, 1), t), (task_id + 1) as usize, None)
                },
                None => (tasks, task_id, no_task),
            },
            None => (
                tasks,
                task_id,
                Some(new_model(ERROR, id, p.dst, p.src, Message::Error, unknown_name_text())),
            ),
        },
    }
}

/// The name and the argument of an `Invoke` payload.
pub fn split_invocation(payload: &[u8]) -> (r: (Vec<u8>, Vec<u8>))
    ensures
        r.0@ == invoked_name(payload@),
        r.1@ == invoked_arg(payload@),
{
    let space = find_space(payload);
    let mut name: Vec<u8> = Vec::new();
    let mut arg: Vec<u8> = Vec::new();
    let mut i: usize = 0;
    let n = payload.len();
    let cut = match space {
        Some(k) => k,
        None => n,
    };
    proof {
        lemma_first_space(payload@);
    }
    while i < n
        invariant
            n == payload@.len(),
            cut <= n,
            i <= n,
            i <= cut ==> name@ == payload@.subrange(0, i as int) && arg@.len() == 0,
            i > cut ==> name@ == payload@.subrange(0, cut as int) && arg@
                == payload@.subrange(cut + 1, i as int),
        decreases n - i,
    {
        if i < cut {
            name.push(payload[i]);
        } else if i > cut {
            arg.push(payload[i]);
        }
        i = i + 1;
        proof {
            if i <= cut {
                assert(name@ =~= payload@.subrange(0, i as int));
            } else if i == cut + 1 {
                assert(arg@ =~= payload@.subrange(cut + 1, i as int));
            } else {
                assert(arg@ =~= payload@.subrange(cut + 1, i as int));
            }
        }
    }
    proof {
        assert(name@ =~= invoked_name(payload@));
        assert(arg@ =~= invoked_arg(payload@));
    }
    (name, arg)
}

/// Whether handling the `Invoke` packet `p` is answered (see
/// [`invoke_outcome`]): unless the payload names an application or driver
/// and the memory `mem` can hold the task.
pub open spec fn invoke_replies<'k>(
    apps: Seq<AppContainer<'k>>,
    drivers: Seq<AppContainer<'k>>,
    p: PacketModel,
    mem: Option<TaskMemory>,
) -> bool {
    let name = invoked_name(p.payload);
    !((find_named(apps, name).is_some() || find_named(drivers, name).is_some()) && usable(
        mem,
        invoked_arg(p.payload).len(),
    ).is_some())
}

/// Whether an `Invoke` packet will be answered (see [`invoke_replies`]).
pub fn invoke_needs_reply<'k>(
    apps: &Vec<AppContainer<'k>>,
    drivers: &Vec<AppContainer<'k>>,
    p: &Packet,
    mem: Option<TaskMemory>,
) -> (r: bool)
    ensures
        r == invoke_replies(apps@, drivers@, p@, mem),
{
    let (name, arg) = split_invocation(p.payload.as_slice());
    let found = find_by_name(apps, name.as_slice()).is_some() || find_by_name(drivers, name.as_slice()).is_some();
    let room = match mem {
        Some(m) => memory_fits(m, arg.len()),
        None => false,
    };
    !(found && room)
}

/// Answering an `Invoke` packet happens exactly as [`invoke_replies`] says.
pub proof fn lemma_invoke_replies<'k>(
    apps: Seq<AppContainer<'k>>,
    drivers: Seq<AppContainer<'k>>,
    tasks: Seq<TaskModel>,
    task_id: usize,
    p: PacketModel,
    mem: Option<TaskMemory>,
)
    ensures
        invoke_outcome(apps, drivers, tasks, task_id, p, mem).2.is_some() == invoke_replies(apps, drivers, p, mem),
{
}

/// Handles an `Invoke` packet (see [`invoke_outcome`]); returns the reply
/// owed, if any.  The drivers must have their state address, and task ids
/// must not run out.
pub fn handle_invoke<'k>(
    apps: &Vec<AppContainer<'k>>,
    drivers: &Vec<AppContainer<'k>>,
    scheduler: &mut Scheduler,
    next_task_id: &mut usize,
    packet: Packet,
    mem: Option<TaskMemory>,
) -> (r: Option<Packet>)
    requires
        packet.packet_id < u16::MAX,
        mem.is_some() ==> *old(next_task_id) < usize::MAX,
        forall|j: int| 0 <= j < drivers@.len() ==> (#[trigger] drivers@[j]).spec_driver_struct().is_some(),
    ensures
        ({
            let o = invoke_outcome(apps@, drivers@, old(scheduler).tasks(), *old(next_task_id), packet@, mem);
            &&& final(scheduler).tasks() == o.0
            &&& *final(next_task_id) == o.1
            &&& match r {
                Some(q) => o.2 == Some(q@),
                None => o.2.is_none(),
            }
        }),
{
    let id = packet.packet_id + 1;
    let src = packet.dst;
    let dst = packet.src;
    let (name, arg) = split_invocation(packet.payload.as_slice());
    proof {
        lemma_find_named(apps@, name@);
        lemma_find_named(drivers@, name@);
    }
    let task_packet = Packet {
        version: packet.version,
        flags: packet.flags,
        packet_id: packet.packet_id,
        src: packet.src,
        dst: packet.dst,
        ttl: packet.ttl,
        msg_type: packet.msg_type,
        payload: arg,
    };
    match find_by_name(apps, name.as_slice()) {
        Some(k) => {
            let made = match mem {
                Some(m) => Task::new(task_packet, 1, apps[k].main_addr(), *next_task_id, m),
                None => None,
            };
            match made {
                Some(task) => {
                    *next_task_id = *next_task_id + 1;
                    scheduler.add(task);
                    None
                },
                None => Some(Packet::new(ERROR, id, src, dst, Message::Reply, no_task_bytes())),
            }
        },
        None => match find_by_name(drivers, name.as_slice()) {
            Some(k) => {
                let made = match mem {
                    Some(m) => Task::new(task_packet, 1, drivers[k].main_addr(), *next_task_id, m),
                    None => None,
                };
                match made {
                    Some(mut task) => {
                        *next_task_id = *next_task_id + 1;
                        proof {
                            assert(drivers@[k as int].spec_driver_struct().is_some());
                        }
                        let driver_struct = drivers[k].driver_struct().unwrap();
                        task.for_driver(driver_struct);
                        scheduler.add(task);
                        None
                    },
                    None => Some(Packet::new(ERROR, id, src, dst, Message::Reply, no_task_bytes())),
                }
            },
            None => Some(Packet::new(ERROR, id, src, dst, Message::Error, unknown_name_bytes())),
        },
    }
}

} // verus!
