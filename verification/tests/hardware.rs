use orbit::arch::interface::Pmp;
use orbit::arch::pmp::{Permission, PmpAccess, PmpError, Range, RiscvPmp};
use orbit::arch::qingke_cpu::Core;
use orbit::clock::ch592::{mask_interrupts, restored_interrupts, ClockConfig, ClockSrc, Clock32KSrc, Clocks, LseStartup};
use orbit::clock::{ch32v003, ch32v208wbu6, ch32x035};
use orbit::common::check_overlap;
use orbit::id::ID;
use orbit::pmp_entry::PmpEntry;
use orbit::port::port_kind::{ch32v208wbu6 as v208_ports, ch32x035 as x035_ports, ConfigRegister, GpioBank, PinSetup};
use orbit::port::ConfigureGPIO;
use orbit::port::uart::{cleared_status, Config, DataBits, Parity, StopBits, UartRegisters};

#[test]
fn pmp_reaches_only_existing_registers() {
    let pmp: RiscvPmp<4> = RiscvPmp;
    assert_eq!(pmp.write_addr(2, 0x80), Ok(PmpAccess::WriteAddr { reg: 2, addr: 0x80 }));
    assert_eq!(pmp.write_addr(4, 0), Err(PmpError::IndexOutOfBounds { index: 4, min: 0, max: 3 }));
    assert_eq!(pmp.read_addr(9, 0), Err(PmpError::IndexOutOfBounds { index: 9, min: 0, max: 3 }));
    assert_eq!(pmp.clear_cfg(0, 5), Err(PmpError::IndexOutOfBounds { index: 5, min: 0, max: 3 }));
    assert_eq!(pmp.clear_cfg(1, 0), Err(PmpError::IndexOutOfBounds { index: 1, min: 0, max: 0 }));
    assert_eq!(pmp.read_cfg(0, 0), Ok(PmpAccess::ReadCfg));
    assert_eq!(
        pmp.write_cfg(0, 1, Range::TOR, Permission::RX, true),
        Ok(PmpAccess::SetCfg { index: 1, range: Range::TOR, permission: Permission::RX, locked: true })
    );
}

#[test]
fn pmp_default_clears_each_region() {
    let mut pmp: RiscvPmp<4> = RiscvPmp;
    let plan = pmp.default();
    let mut expected = Vec::new();
    for i in 0..4 {
        expected.push(PmpAccess::ClearCfg(i));
        expected.push(PmpAccess::WriteAddr { reg: i, addr: 0 });
    }
    assert_eq!(plan, expected);
    let mut six: RiscvPmp<6> = RiscvPmp;
    assert_eq!(six.default().len(), 8);
}

#[test]
fn core_and_entries() {
    let core: Core<4> = Core::new();
    assert_eq!(core.timer.frequency(), 10);
    let e = PmpEntry::default();
    assert_eq!(e, PmpEntry { address: 0, range: Range::OFF, permission: Permission::NONE, locked: false });
    let n = PmpEntry::new(0x2000, Range::NAPOT, Permission::RW, false);
    assert_eq!(n.address, 0x2000);
    assert!(!check_overlap([1, 2, 3]));
}

#[test]
fn clock_configs() {
    let d = ClockConfig::default();
    assert_eq!(d.mux, ClockSrc::PLL(8));
    assert_eq!(d.clock32ksrc, Clock32KSrc::LSI);
    assert_eq!(ClockConfig::pll_80mhz().mux, ClockSrc::PLL(6));
    assert_eq!(ClockConfig::pll_60mhz(), d);
    assert_eq!(ClockConfig::clock_source_lsi().mux, ClockSrc::Clock32K);
    assert_eq!(d.use_lse().clock32ksrc, Clock32KSrc::LSE);
}

#[test]
fn clock_freeze_plans() {
    let p = ClockConfig::pll_60mhz().freeze(Clocks::power_on());
    assert_eq!(p.clocks.hclk, 60_000_000);
    assert_eq!((p.sys_mode, p.pll_div), (1, 8));
    assert_eq!(p.lse, None);
    let h = ClockConfig { clock32ksrc: Clock32KSrc::LSE, mux: ClockSrc::HSE(40) }.freeze(Clocks { hclk: 6_400_000 });
    assert_eq!(h.clocks.hclk, 800_000);
    assert_eq!((h.sys_mode, h.pll_div), (2, 8));
    assert_eq!(h.lse, Some(LseStartup { power_on_wait: 160_000, tune_wait: 6_400 }));
    let mut a = ch32v003::Clocks::default();
    assert_eq!(a.freeze().apb2, (1 << 14) | (1 << 5));
    assert_eq!(a.hclk, 8_000_000);
    let mut b = ch32v208wbu6::Clocks::default();
    assert_eq!(b.freeze().apb1, 1 << 19);
    let mut c = ch32x035::Clocks::default();
    let g = c.freeze();
    assert_eq!((g.apb1, g.apb2, c.hclk), (1 << 17, (1 << 3) | (1 << 2) | (1 << 12), 48_000_000));
}

#[test]
fn uart_register_values() {
    let r = UartRegisters::for_config(&Config::default());
    assert_eq!(r.ctlr1, (1 << 5) | (1 << 3) | (1 << 2) | (1 << 13));
    assert_eq!((r.ctlr2, r.ctlr3, r.brr), (0, 1, 69));
    let c = Config { baudrate: 9600, data_bits: DataBits::DataBits9, stop_bits: StopBits::STOP2, parity: Parity::ParityOdd };
    let r = UartRegisters::for_config(&c);
    assert_eq!(r.ctlr1, (1 << 12) | (3 << 9) | (1 << 5) | (1 << 3) | (1 << 2) | (1 << 13));
    assert_eq!(r.ctlr2, 2 << 12);
    assert_eq!(cleared_status(0xFF, 5), 0xDF);
}

#[test]
fn ids_are_settable() {
    let mut id = ID::new(3u16);
    assert_eq!(id.get_id(), 3);
    id.set(4);
    assert_eq!(id.get_id(), 4);
}

struct Dev(u32);
impl orbit::claim::Claimable for Dev {}

#[test]
fn claimed_peripheral_reads_and_revokes() {
    let mut d = Dev(7);
    let mut c = orbit::claim::Claimed::new(&mut d);
    assert_eq!(c.read(|p: &Dev| p.0 + 1), 8);
    let mut seen = 0;
    c.modify(|p: &&mut Dev| seen = p.0);
    assert_eq!(seen, 7);
    assert!(c.revoke().is_ok());
}

#[test]
fn port_pins_per_chip() {
    assert_eq!(
        v208_ports::PortKinds::USART1.configure(),
        Some(PinSetup { bank: GpioBank::A, register: ConfigRegister::High, config: 0b1011 << 4 | 0b1000 << 8, keep_others: true, output: 1 << 10 })
    );
    assert_eq!(
        v208_ports::PortKinds::UART4.configure(),
        Some(PinSetup { bank: GpioBank::C, register: ConfigRegister::High, config: 0b1011 << 8 | 0b1000 << 12, keep_others: true, output: 1 << 11 })
    );
    assert_eq!(v208_ports::PortKinds::USART2.configure(), None);
    assert_eq!(v208_ports::PortKinds::USART3.configure(), None);
    assert_eq!(
        x035_ports::PortKinds::USART1.configure(),
        Some(PinSetup { bank: GpioBank::B, register: ConfigRegister::High, config: 0b1011 << 8 | 0b1000 << 12, keep_others: false, output: 1 << 11 })
    );
    assert_eq!(
        x035_ports::PortKinds::USART2.configure(),
        Some(PinSetup { bank: GpioBank::A, register: ConfigRegister::Low, config: 0b1011 << 8 | 0b1000 << 12, keep_others: false, output: 1 << 3 })
    );
    assert_eq!(
        x035_ports::PortKinds::USART3.configure(),
        Some(PinSetup { bank: GpioBank::B, register: ConfigRegister::Low, config: 0b1011 << 12 | 0b1000 << 16, keep_others: false, output: 1 << 4 })
    );
    assert_eq!(
        x035_ports::PortKinds::USART4.configure(),
        Some(PinSetup { bank: GpioBank::B, register: ConfigRegister::Low, config: 0b1011 | 0b1000 << 4, keep_others: false, output: 1 << 1 })
    );
}

#[test]
fn safe_access_masks_and_restores_interrupts() {
    assert_eq!(mask_interrupts(0x0B), (0x0B, Some(0x03)));
    assert_eq!(mask_interrupts(0x03), (0, None));
    assert_eq!(restored_interrupts(0x03, 0x0B), 0x0B);
    assert_eq!(restored_interrupts(0x03, 0), 0x03);
    for g in [0usize, 0x08, 0x0B, 0x03, usize::MAX] {
        let (saved, write) = mask_interrupts(g);
        let during = write.unwrap_or(g);
        assert_eq!(restored_interrupts(during, saved), g);
    }
}
