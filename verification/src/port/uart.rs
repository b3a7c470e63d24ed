//! Configuration of the UART that carries a port.
use vstd::prelude::*;

verus! {

#[derive(Clone, Copy, PartialEq, Eq, Structural, Debug)]
pub enum Parity {
    ParityNone,
    ParityEven,
    ParityOdd,
}

#[derive(Clone, Copy, PartialEq, Eq, Structural, Debug)]
pub enum StopBits {
    /// 1 stop bit
    STOP1,
    /// 2 stop bits
    STOP2,
}

#[derive(Clone, Copy, PartialEq, Eq, Structural, Debug)]
pub enum DataBits {
    DataBits8,
    DataBits9,
}

/// The field value of a parity setting in control register 1.
pub open spec fn parity_bits(p: Parity) -> u32 {
    match p {
        Parity::ParityNone => 0,
        Parity::ParityEven => 2,
        Parity::ParityOdd => 3,
    }
}

/// The field value of a stop-bit setting in control register 2.
pub open spec fn stop_bits_value(s: StopBits) -> u32 {
    match s {
        StopBits::STOP1 => 0,
        StopBits::STOP2 => 2,
    }
}

/// The field value of a word-length setting in control register 1.
pub open spec fn data_bits_value(d: DataBits) -> u32 {
    match d {
        DataBits::DataBits8 => 0,
        DataBits::DataBits9 => 1,
    }
}

impl Parity {
    pub fn bits(self) -> (r: u32)
        ensures
            r == parity_bits(self),
    {
        match self {
            Parity::ParityNone => 0,
            Parity::ParityEven => 2,
            Parity::ParityOdd => 3,
        }
    }
}

impl StopBits {
    pub fn bits(self) -> (r: u32)
        ensures
            r == stop_bits_value(self),
    {
        match self {
            StopBits::STOP1 => 0,
            StopBits::STOP2 => 2,
        }
    }
}

impl DataBits {
    pub fn bits(self) -> (r: u32)
        ensures
            r == data_bits_value(self),
    {
        match self {
            DataBits::DataBits8 => 0,
            DataBits::DataBits9 => 1,
        }
    }
}

/// Line settings of a UART.
pub struct Config {
    pub baudrate: u32,
    pub data_bits: DataBits,
    pub stop_bits: StopBits,
    pub parity: Parity,
}

impl Config {
    /// 115200 baud, 8 data bits, 1 stop bit, no parity.
    pub fn default() -> (c: Config)
        ensures
            c.baudrate == 115200,
            c.data_bits == DataBits::DataBits8,
            c.stop_bits == StopBits::STOP1,
            c.parity == Parity::ParityNone,
    {
        Config {
            baudrate: 115200,
            data_bits: DataBits::DataBits8,
            stop_bits: StopBits::STOP1,
            parity: Parity::ParityNone,
        }
    }
}

/// The divider written to the baud-rate register: 115200 baud from the
/// 8 MHz default clock.
pub const UART_DIV: u32 = 69;

/// The values a UART's set-up writes to its registers.
#[derive(Clone, Copy, PartialEq, Eq, Structural, Debug)]
pub struct UartRegisters {
    pub ctlr1: u32,
    pub ctlr2: u32,
    pub ctlr3: u32,
    pub brr: u32,
}

/// Control register 1: word length at bit 12, parity at bits 9 and 10, the
/// receive interrupt (bit 5), receiver and transmitter (bits 2 and 3) and
/// the UART itself (bit 13) enabled.
pub open spec fn ctlr1_value(c: Config) -> u32 {
    (data_bits_value(c.data_bits) * 4096 + parity_bits(c.parity) * 512 + 8192 + 32 + 8 + 4) as u32
}

impl UartRegisters {
    /// The register values for a configuration.
    pub fn for_config(config: &Config) -> (r: UartRegisters)
        ensures
            r.ctlr1 == ctlr1_value(*config),
            r.ctlr2 == stop_bits_value(config.stop_bits) * 4096,
            r.ctlr3 == 1,
            r.brr == UART_DIV,
    {
        let d = config.data_bits.bits();
        let p = config.parity.bits();
        let s = config.stop_bits.bits();
        let mut ctlr1: u32 = 0;
        ctlr1 = ctlr1 | (d << 12u32);
        ctlr1 = ctlr1 | (p << 9u32);
        ctlr1 = ctlr1 | (1u32 << 5u32);
        ctlr1 = ctlr1 | (1u32 << 3u32);
        ctlr1 = ctlr1 | (1u32 << 2u32);
        ctlr1 = ctlr1 | (1u32 << 13u32);
        let ctlr2: u32 = 0u32 | (s << 12u32);
        assert((0u32 | (d << 12u32) | (p << 9u32) | (1u32 << 5u32) | (1u32 << 3u32) | (1u32 << 2u32) | (
        1u32 << 13u32)) == d * 4096 + p * 512 + 8192 + 32 + 8 + 4) by (bit_vector)
            requires
                d <= 1,
                p <= 3,
        ;
        assert((0u32 | (s << 12u32)) == s * 4096) by (bit_vector)
            requires
                s <= 2,
        ;
        UartRegisters { ctlr1, ctlr2, ctlr3: 1, brr: UART_DIV }
    }
}

/// What control register 1 sets up, bit by bit as the UART's reference
/// manual lays the register out: the word length bit (12) is set for 9 data
/// bits; the parity enable bit (10) is set unless there is no parity, and
/// the parity select bit (9) is set for odd parity only; the UART (13), its
/// receive interrupt (5), transmitter (3) and receiver (2) are enabled; all
/// other bits are clear.  Control register 2 sets the stop bits field (bits
/// 12 and 13) to 0b10 for 2 stop bits and clears it for 1.
pub proof fn lemma_uart_register_bits(c: Config)
    ensures
        (ctlr1_value(c) >> 12u32) & 1 == (if c.data_bits == DataBits::DataBits9 { 1u32 } else { 0u32 }),
        (ctlr1_value(c) >> 10u32) & 1 == (if c.parity == Parity::ParityNone { 0u32 } else { 1u32 }),
        (ctlr1_value(c) >> 9u32) & 1 == (if c.parity == Parity::ParityOdd { 1u32 } else { 0u32 }),
        ctlr1_value(c) & 0x202Cu32 == 0x202Cu32,
        ctlr1_value(c) & !0x362Cu32 == 0,
        (stop_bits_value(c.stop_bits) * 4096) == (if c.stop_bits == StopBits::STOP2 { 0x2000u32 } else { 0u32 }),
{
    let v = ctlr1_value(c);
    match c.data_bits {
        DataBits::DataBits8 => match c.parity {
            Parity::ParityNone => {
                assert(v == 0x202Cu32);
                assert((0x202Cu32 >> 12u32) & 1 == 0 && (0x202Cu32 >> 10u32) & 1 == 0 && (0x202Cu32 >> 9u32) & 1 == 0
                    && 0x202Cu32 & 0x202Cu32 == 0x202Cu32 && 0x202Cu32 & !0x362Cu32 == 0) by (bit_vector);
            },
            Parity::ParityEven => {
                assert(v == 0x242Cu32);
                assert((0x242Cu32 >> 12u32) & 1 == 0 && (0x242Cu32 >> 10u32) & 1 == 1 && (0x242Cu32 >> 9u32) & 1 == 0
                    && 0x242Cu32 & 0x202Cu32 == 0x202Cu32 && 0x242Cu32 & !0x362Cu32 == 0) by (bit_vector);
            },
            Parity::ParityOdd => {
                assert(v == 0x262Cu32);
                assert((0x262Cu32 >> 12u32) & 1 == 0 && (0x262Cu32 >> 10u32) & 1 == 1 && (0x262Cu32 >> 9u32) & 1 == 1
                    && 0x262Cu32 & 0x202Cu32 == 0x202Cu32 && 0x262Cu32 & !0x362Cu32 == 0) by (bit_vector);
            },
        },
        DataBits::DataBits9 => match c.parity {
            Parity::ParityNone => {
                assert(v == 0x302Cu32);
                assert((0x302Cu32 >> 12u32) & 1 == 1 && (0x302Cu32 >> 10u32) & 1 == 0 && (0x302Cu32 >> 9u32) & 1 == 0
                    && 0x302Cu32 & 0x202Cu32 == 0x202Cu32 && 0x302Cu32 & !0x362Cu32 == 0) by (bit_vector);
            },
            Parity::ParityEven => {
                assert(v == 0x342Cu32);
                assert((0x342Cu32 >> 12u32) & 1 == 1 && (0x342Cu32 >> 10u32) & 1 == 1 && (0x342Cu32 >> 9u32) & 1 == 0
                    && 0x342Cu32 & 0x202Cu32 == 0x202Cu32 && 0x342Cu32 & !0x362Cu32 == 0) by (bit_vector);
            },
            Parity::ParityOdd => {
                assert(v == 0x362Cu32);
                assert((0x362Cu32 >> 12u32) & 1 == 1 && (0x362Cu32 >> 10u32) & 1 == 1 && (0x362Cu32 >> 9u32) & 1 == 1
                    && 0x362Cu32 & 0x202Cu32 == 0x202Cu32 && 0x362Cu32 & !0x362Cu32 == 0) by (bit_vector);
            },
        },
    }
}

/// The status value that clearing interrupt flag `bit` writes back: the read
/// value with that bit cleared.
pub fn cleared_status(status: u32, bit: u32) -> (r: u32)
    requires
        bit < 32,
    ensures
        r == status & !(1u32 << bit),
{
    status & !(1u32 << bit)
}

} // verus!
