use orbit::message::Message;
use orbit::port::action::Action as PortAction;
use orbit::port::message::Message as PortMessage;
use orbit::syscall::SysCall;
use orbit::kernel::trap::{classify_trap, nested_threshold, TrapCause};

#[test]
fn message_bytes_round_trip() {
    for b in 1u8..=4 {
        assert_eq!(Message::from(b).into(), b);
    }
    assert_eq!(Message::from(0), Message::Unknown);
    assert_eq!(Message::from(9), Message::Unknown);
    assert_eq!(Message::Unknown.into(), u8::MAX);
    assert_eq!(Message::from(1), Message::Invoke);
    assert_eq!(Message::from(4), Message::Append);
}

#[test]
fn port_message_and_action() {
    assert_eq!(PortMessage::from(1), PortMessage::Invoke);
    assert_eq!(PortMessage::from(2), PortMessage::Okay);
    assert_eq!(PortMessage::from(3), PortMessage::Unknown);
    assert_eq!(PortMessage::Okay.into(), 2);
    assert_eq!(PortMessage::Unknown.into(), 255);
    assert_eq!(PortAction::from(&[1, 4]), PortAction::Invoke(4));
    assert_eq!(PortAction::from(&[2]), PortAction::Nothing);
}

#[test]
fn syscall_numbers_round_trip() {
    for v in 0usize..14 {
        assert_eq!(SysCall::from_usize(v).discriminant(), v);
        assert_eq!(SysCall::decode(v), Some(SysCall::from_usize(v)));
    }
    assert_eq!(SysCall::decode(14), None);
    assert_eq!(SysCall::from_usize(1), SysCall::ReturnMain);
    assert_eq!(SysCall::InvokeLocal.discriminant(), 13);
}

#[test]
fn trap_causes_from_mcause() {
    assert_eq!(classify_trap(0x8000_000B), TrapCause::Interrupt(11));
    assert_eq!(classify_trap(0x8000_0000), TrapCause::Interrupt(0));
    assert_eq!(classify_trap(8), TrapCause::SystemCall);
    assert_eq!(classify_trap(0x808), TrapCause::SystemCall);
    assert_eq!(classify_trap(2), TrapCause::Other);
    assert_eq!(classify_trap(11), TrapCause::Other);
}

#[test]
fn interrupt_nesting_thresholds() {
    assert_eq!(nested_threshold(0), Some(1));
    assert_eq!(nested_threshold(7), Some(8));
    assert_eq!(nested_threshold(14), Some(15));
    assert_eq!(nested_threshold(15), None);
    assert_eq!(nested_threshold(u32::MAX), None);
}
