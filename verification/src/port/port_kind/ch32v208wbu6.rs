//! Ports of the CH32V208WBU6.
use vstd::prelude::*;
use crate::port::ConfigureGPIO;
use crate::port::port_kind::{GpioBank, ConfigRegister, PinSetup, uart_pins, pow16};

verus! {

/// The UARTs of the CH32V208WBU6 that can carry a port.
#[derive(Clone, Copy, PartialEq, Eq, Structural, Debug)]
pub enum PortKinds {
    USART1,
    USART2,
    USART3,
    UART4,
}

/// The pin set-up of each UART: USART1 on PA9 (transmit) and PA10 (receive),
/// UART4 on PC10 and PC11, both kept beside the other pins of the register,
/// with the receive pin's output bit set; the others need none.
pub open spec fn pin_setup(k: PortKinds) -> Option<PinSetup> {
    match k {
        PortKinds::USART1 => Some(PinSetup {
            bank: GpioBank::A,
            register: ConfigRegister::High,
            config: uart_pins(1, 2) as u32,
            keep_others: true,
            output: 0x400,
        }),
        PortKinds::UART4 => Some(PinSetup {
            bank: GpioBank::C,
            register: ConfigRegister::High,
            config: uart_pins(2, 3) as u32,
            keep_others: true,
            output: 0x800,
        }),
        _ => None,
    }
}

impl ConfigureGPIO for PortKinds {
    fn configure(&self) -> (r: Option<PinSetup>)
        ensures
            r == pin_setup(*self),
    {
        proof {
            reveal_with_fuel(pow16, 4);
        }
        match self {
            PortKinds::USART1 => Some(PinSetup {
                bank: GpioBank::A,
                register: ConfigRegister::High,
                config: 0x8B0,
                keep_others: true,
                output: 0x400,
            }),
            PortKinds::USART2 => None,
            PortKinds::USART3 => None,
            PortKinds::UART4 => Some(PinSetup {
                bank: GpioBank::C,
                register: ConfigRegister::High,
                config: 0x8B00,
                keep_others: true,
                output: 0x800,
            }),
        }
    }
}

} // verus!
