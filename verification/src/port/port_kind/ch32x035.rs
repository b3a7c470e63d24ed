//! Ports of the CH32X035.
use vstd::prelude::*;
use crate::port::ConfigureGPIO;
use crate::port::port_kind::{GpioBank, ConfigRegister, PinSetup, uart_pins, pow16};

verus! {

/// The USARTs of the CH32X035 that can carry a port.
#[derive(Clone, Copy, PartialEq, Eq, Structural, Debug)]
pub enum PortKinds {
    USART1,
    USART2,
    USART3,
    USART4,
}

/// The pin set-up of each USART, which replaces the rest of its
/// configuration register: USART1 on PB10 (transmit) and PB11 (receive),
/// USART2 on PA2 and PA3, USART3 on PB3 and PB4, USART4 on PB0 and PB1; the
/// receive pin's output bit is set.
pub open spec fn pin_setup(k: PortKinds) -> PinSetup {
    match k {
        PortKinds::USART1 => PinSetup {
            bank: GpioBank::B,
            register: ConfigRegister::High,
            config: uart_pins(2, 3) as u32,
            keep_others: false,
            output: 0x800,
        },
        PortKinds::USART2 => PinSetup {
            bank: GpioBank::A,
            register: ConfigRegister::Low,
            config: uart_pins(2, 3) as u32,
            keep_others: false,
            output: 8,
        },
        PortKinds::USART3 => PinSetup {
            bank: GpioBank::B,
            register: ConfigRegister::Low,
            config: uart_pins(3, 4) as u32,
            keep_others: false,
            output: 16,
        },
        PortKinds::USART4 => PinSetup {
            bank: GpioBank::B,
            register: ConfigRegister::Low,
            config: uart_pins(0, 1) as u32,
            keep_others: false,
            output: 2,
        },
    }
}

impl ConfigureGPIO for PortKinds {
    fn configure(&self) -> (r: Option<PinSetup>)
        ensures
            r == Some(pin_setup(*self)),
    {
        proof {
            reveal_with_fuel(pow16, 5);
        }
        match self {
            PortKinds::USART1 => Some(PinSetup {
                bank: GpioBank::B,
                register: ConfigRegister::High,
                config: 0x8B00,
                keep_others: false,
                output: 0x800,
            }),
            PortKinds::USART2 => Some(PinSetup {
                bank: GpioBank::A,
                register: ConfigRegister::Low,
                config: 0x8B00,
                keep_others: false,
                output: 0x8,
            }),
            PortKinds::USART3 => Some(PinSetup {
                bank: GpioBank::B,
                register: ConfigRegister::Low,
                config: 0x8B000,
                keep_others: false,
                output: 0x10,
            }),
            PortKinds::USART4 => Some(PinSetup {
                bank: GpioBank::B,
                register: ConfigRegister::Low,
                config: 0x8B,
                keep_others: false,
                output: 0x2,
            }),
        }
    }
}

} // verus!
