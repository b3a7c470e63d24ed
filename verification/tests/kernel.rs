use orbit::application_container::AppContainer;
use orbit::context::Context;
use orbit::kernel::scheduler::Scheduler;
use orbit::kernel::{InterruptOutcome, Kernel, KernelAction, KERNEL_MAJOR, KERNEL_MINOR};
use orbit::protocol::{Message, Packet, ERROR, MAX_BUFFER_LENGTH};
use orbit::syscall::SysCall;
use orbit::task::{task_size, Task, TaskMemory, TaskState, CONTEXT_WORDS, STACK_SIZE};

fn mem() -> Option<TaskMemory> {
    Some(TaskMemory { base: 0x1000, size: 0x10000 })
}

fn header() -> usize {
    (CONTEXT_WORDS + STACK_SIZE) * core::mem::size_of::<usize>()
}

fn task(priority: usize, id: usize) -> Task {
    let p = Packet::new(0, 0, 0, 0, Message::Invoke, vec![]);
    Task::new(p, priority, 0x100 + id, id, mem().unwrap()).unwrap()
}

fn ids(s: &Scheduler) -> Vec<usize> {
    (0..s.len()).map(|i| s.get(i).header.task_id).collect()
}

#[test]
fn scheduler_orders_by_priority() {
    let mut s = Scheduler::new();
    s.add(task(1, 0));
    s.add(task(3, 1));
    s.add(task(2, 2));
    s.add(task(2, 3));
    s.add(task(1, 4));
    assert_eq!(ids(&s), vec![1, 2, 3, 0, 4]);
    let prios: Vec<usize> = (0..s.len()).map(|i| s.get(i).header.priority).collect();
    assert_eq!(prios, vec![3, 2, 2, 1, 1]);
}

#[test]
fn scheduler_puts_equal_front_priority_first() {
    let mut s = Scheduler::new();
    s.add(task(2, 0));
    s.add(task(2, 1));
    assert_eq!(ids(&s), vec![1, 0]);
    assert_eq!(s.current().unwrap().header.task_id, 1);
    assert_eq!(s.pop().unwrap().header.task_id, 1);
    assert_eq!(ids(&s), vec![0]);
}

#[test]
fn task_start_registers() {
    let mut t = task(1, 3);
    let c = t.header.context;
    let end = 0x1000 + header();
    assert_eq!((c.mepc, c.gp, c.sp, c.a0, c.a1), (0x103, 0x1000, end, end, 0));
    assert_eq!(t.header.state, TaskState::Waiting);
    t.for_driver(0xAA);
    let c = t.header.context;
    assert_eq!((c.a0, c.a1, c.a2), (0xAA, end, 0));
}

#[test]
fn task_memory_must_hold_save_area_stack_and_payload() {
    assert_eq!(task_size(3), Some(header() + 3));
    assert_eq!(task_size(usize::MAX), None);
    let p = Packet::new(0, 0, 0, 0, Message::Invoke, vec![1, 2, 3]);
    let exact = TaskMemory { base: 0x1000, size: header() + 3 };
    let t = Task::new(p.duplicate(), 1, 0x100, 0, exact).unwrap();
    assert_eq!(t.header.context.sp, 0x1000 + header());
    assert_eq!(t.header.context.a1, 3);
    let short = TaskMemory { base: 0x1000, size: header() + 2 };
    assert!(Task::new(p.duplicate(), 1, 0x100, 0, short).is_none());
    let wrapping = TaskMemory { base: usize::MAX - 10, size: header() + 3 };
    assert!(Task::new(p, 1, 0x100, 0, wrapping).is_none());
}

fn kernel_with_calc<'k>() -> Kernel<'k> {
    let (mut k, actions) = Kernel::new(8_000_000, vec![53, 66], 0x2000_0800, 3);
    assert!(matches!(actions[..], [KernelAction::EnableInterrupt(53), KernelAction::EnableInterrupt(66)]));
    k.add_application(AppContainer::new("calc", None, 0, 0x200, 0));
    k
}

fn invoke_frame(payload: &[u8], id: u16) -> Vec<u8> {
    Packet::new(0, id, 1, 2, Message::Invoke, payload.to_vec()).encode().unwrap()
}

#[test]
fn kernel_version_and_clock() {
    let k = kernel_with_calc();
    assert_eq!(k.version(), (KERNEL_MAJOR, KERNEL_MINOR));
    assert_eq!(k.clock(), 8_000_000);
}

#[test]
fn invoke_queues_task_with_argument() {
    let mut k = kernel_with_calc();
    let actions = k.port_handler(0, &invoke_frame(b"calc 1 + 2", 4), mem()).unwrap();
    assert!(actions.is_empty());
    let c = k.setup_event_loop().unwrap();
    assert_eq!(c.mepc, 0x200);
    assert_eq!(c.a1, 5);
}

#[test]
fn invoke_unknown_name_is_answered_with_error() {
    let mut k = kernel_with_calc();
    let actions = k.port_handler(1, &invoke_frame(b"nope", 4), mem()).unwrap();
    assert_eq!(actions.len(), 1);
    match &actions[0] {
        KernelAction::Write(port, frame) => {
            assert_eq!(*port, 1);
            let r = Packet::decode(frame).unwrap();
            assert_eq!(r.msg_type, Message::Error);
            assert_eq!(r.flags, ERROR);
            assert_eq!(r.payload, b"Unknown name".to_vec());
            assert_eq!((r.packet_id, r.src, r.dst), (5, 2, 1));
        }
        _ => panic!("expected a write"),
    }
    assert!(k.setup_event_loop().is_none());
}

#[test]
fn invoke_without_memory_is_answered() {
    let mut k = kernel_with_calc();
    let actions = k.port_handler(0, &invoke_frame(b"calc", 0), None).unwrap();
    match &actions[0] {
        KernelAction::Write(_, frame) => {
            assert_eq!(Packet::decode(frame).unwrap().payload, b"Could not create task".to_vec());
        }
        _ => panic!("expected a write"),
    }
}

#[test]
fn kernel_version_request() {
    let mut k = kernel_with_calc();
    let frame = Packet::new(0, 10, 1, 2, Message::KernelVersion, vec![]).encode().unwrap();
    let actions = k.port_handler(0, &frame, None).unwrap();
    match &actions[0] {
        KernelAction::Write(0, f) => {
            let r = Packet::decode(f).unwrap();
            assert_eq!(r.payload, vec![KERNEL_MAJOR, KERNEL_MINOR]);
            assert_eq!(r.packet_id, 11);
        }
        _ => panic!("expected a write"),
    }
}

#[test]
fn unsupported_message_is_not_implemented() {
    let mut k = kernel_with_calc();
    let frame = Packet::new(0, 10, 1, 2, Message::Busy, vec![]).encode().unwrap();
    let actions = k.port_handler(0, &frame, None).unwrap();
    match &actions[0] {
        KernelAction::Write(0, f) => {
            let r = Packet::decode(f).unwrap();
            assert_eq!(r.payload, b"Not implemented".to_vec());
            assert_eq!(r.flags, ERROR);
        }
        _ => panic!("expected a write"),
    }
}

fn saved(a0: usize, c: Context) -> Context {
    Context { a0, ..c }
}

#[test]
fn return_main_finishes_task_and_replies() {
    let mut k = kernel_with_calc();
    k.port_handler(0, &invoke_frame(b"calc 12", 4), mem()).unwrap();
    let c = k.setup_event_loop().unwrap();
    let actions = k.syscall_handler(saved(SysCall::ReturnMain.discriminant(), c), &[], &[], None);
    assert!(matches!(actions[0], KernelAction::ResumeAtWait));
    match &actions[1] {
        KernelAction::Write(0, f) => {
            let r = Packet::decode(f).unwrap();
            assert_eq!(r.payload, 2usize.to_le_bytes().to_vec());
            assert_eq!(r.msg_type, Message::Reply);
        }
        _ => panic!("expected a write"),
    }
    assert!(k.setup_event_loop().is_none());
}

#[test]
fn send_replies_to_task_packet() {
    let mut k = kernel_with_calc();
    k.port_handler(0, &invoke_frame(b"calc", 4), mem()).unwrap();
    let c = k.setup_event_loop().unwrap();
    let mut regs = saved(SysCall::Send.discriminant(), c);
    regs.a2 = 3;
    let actions = k.syscall_handler(regs, b"abc", &[], None);
    match &actions[0] {
        KernelAction::Write(0, f) => assert_eq!(Packet::decode(f).unwrap().payload, b"abc".to_vec()),
        _ => panic!("expected a write"),
    }
    let c2 = k.setup_event_loop().unwrap();
    assert_eq!(c2.mepc, c.mepc + 4);
}

#[test]
fn invoke_syscall_broadcasts_padded_frame() {
    let mut k = kernel_with_calc();
    k.port_handler(0, &invoke_frame(b"calc", 4), mem()).unwrap();
    let c = k.setup_event_loop().unwrap();
    let mut regs = saved(SysCall::Invoke.discriminant(), c);
    regs.a2 = 4;
    regs.a4 = 1;
    let actions = k.syscall_handler(regs, b"calc", b"7", None);
    assert_eq!(actions.len(), 2);
    let c2 = k.setup_event_loop().unwrap();
    for (j, a) in actions.iter().enumerate() {
        match a {
            KernelAction::Write(p, f) => {
                assert_eq!(*p, j);
                assert_eq!(f.len(), MAX_BUFFER_LENGTH);
                let frame = &f[..c2.a0];
                assert_eq!(Packet::decode(frame).unwrap().payload, b"calc 7".to_vec());
            }
            _ => panic!("expected a write"),
        }
    }
}

#[test]
fn invoke_local_queues_invoked_task_and_blocks_caller() {
    let mut k = kernel_with_calc();
    k.port_handler(0, &invoke_frame(b"calc", 4), mem()).unwrap();
    let c = k.setup_event_loop().unwrap();
    let mut regs = saved(SysCall::InvokeLocal.discriminant(), c);
    regs.a2 = 4;
    regs.a4 = 3;
    let actions = k.syscall_handler(regs, b"calc", b"1+2", mem());
    assert!(actions.is_empty());
    // The invoked task runs first: one priority above its caller.
    let n = k.setup_event_loop().unwrap();
    assert_eq!((n.mepc, n.a1), (0x200, 8));
    let mut done = saved(SysCall::ReturnMain.discriminant(), n);
    done.a1 = 42;
    k.syscall_handler(done, &[], &[], None);
    // The caller is ready again, with the result, after its `ecall`.
    let back = k.setup_event_loop().unwrap();
    assert_eq!((back.mepc, back.a0), (c.mepc + 4, 42));
}

#[test]
fn invoke_local_of_unknown_name_fails() {
    let mut k = kernel_with_calc();
    k.port_handler(0, &invoke_frame(b"calc", 4), mem()).unwrap();
    let c = k.setup_event_loop().unwrap();
    let mut regs = saved(SysCall::InvokeLocal.discriminant(), c);
    regs.a2 = 3;
    k.syscall_handler(regs, b"zzz", &[], mem());
    let c2 = k.setup_event_loop().unwrap();
    assert_eq!(c2.a0, usize::MAX);
}

#[test]
fn invoke_local_without_room_leaves_caller_running() {
    let mut k = kernel_with_calc();
    k.port_handler(0, &invoke_frame(b"calc", 4), mem()).unwrap();
    let c = k.setup_event_loop().unwrap();
    let mut regs = saved(SysCall::InvokeLocal.discriminant(), c);
    regs.a2 = 4;
    let small = Some(TaskMemory { base: 0x1000, size: 16 });
    k.syscall_handler(regs, b"calc", &[], small);
    let c2 = k.setup_event_loop().unwrap();
    assert_eq!(c2.mepc, c.mepc + 4);
    assert_eq!(c2.a0, SysCall::InvokeLocal.discriminant());
}

#[test]
fn num_ports_and_send_all() {
    let mut k = kernel_with_calc();
    k.port_handler(0, &invoke_frame(b"calc", 4), mem()).unwrap();
    let c = k.setup_event_loop().unwrap();
    let actions = k.syscall_handler(saved(SysCall::NumPorts.discriminant(), c), &[], &[], None);
    assert!(actions.is_empty());
    let c = k.setup_event_loop().unwrap();
    assert_eq!(c.a0, 2);
    let mut regs = saved(SysCall::SendAll.discriminant(), c);
    regs.a2 = 2;
    let actions = k.syscall_handler(regs, b"hi", &[], None);
    assert_eq!(actions.len(), 2);
    for (j, a) in actions.iter().enumerate() {
        match a {
            KernelAction::Write(p, f) => {
                assert_eq!(*p, j);
                let r = Packet::decode(f).unwrap();
                assert_eq!(r.payload, b"hi".to_vec());
                assert_eq!(r.msg_type, Message::Reply);
                assert_eq!(r.packet_id, 5);
            }
            _ => panic!("expected a write"),
        }
    }
}

#[test]
fn kernel_without_ports() {
    let (k, _) = Kernel::new(8_000_000, vec![], 0x2000_0800, 3);
    assert!(k.can_make_task());
    assert_eq!(k.num_ports(), 0);
}

#[test]
fn drivers_register_and_get_interrupts() {
    let (mut k, _) = Kernel::new(8_000_000, vec![53], 0x2000_0800, 3);
    k.add_driver(AppContainer::new("led", Some(0x4000), 0x300, 0x310, 0x320), mem());
    let c = k.setup_event_loop().unwrap();
    assert_eq!((c.mepc, c.a0, c.a2), (0x300, 0x4000, 3));
    let mut regs = saved(SysCall::RegisterInterrupt.discriminant(), c);
    regs.a1 = 40;
    let actions = k.syscall_handler(regs, &[], &[], None);
    assert!(matches!(actions[..], [KernelAction::EnableInterrupt(40)]));
    let c = k.setup_event_loop().unwrap();
    k.syscall_handler(saved(SysCall::ReturnInit.discriminant(), c), &[], &[], None);
    assert!(k.setup_event_loop().is_none());
    match k.interrupt_handler(40, mem()) {
        InterruptOutcome::Actions(a) => assert!(matches!(a[..], [KernelAction::DisableInterrupt(40)])),
        _ => panic!("expected actions"),
    }
    let c = k.setup_event_loop().unwrap();
    assert_eq!(c.mepc, 0x320);
    let actions = k.syscall_handler(saved(SysCall::ReturnInterrupt.discriminant(), c), &[], &[], None);
    assert!(matches!(actions[..], [KernelAction::EnableInterrupt(40)]));
    match k.interrupt_handler(53, None) {
        InterruptOutcome::Port(i) => assert_eq!(i, 0),
        _ => panic!("expected the port"),
    }
    match k.interrupt_handler(7, None) {
        InterruptOutcome::Actions(a) => assert!(a.is_empty()),
        _ => panic!("expected actions"),
    }
}
