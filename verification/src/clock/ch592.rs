use vstd::prelude::*;

verus! {

/// The bit of the `GINTENR` register that enables interrupts globally.
pub const GLOBAL_INTERRUPT_ENABLE: usize = 0x08;

/// What unlocking the protected registers does to `GINTENR`, whose value is
/// `gintenr`: when interrupts are enabled globally, the value to restore
/// afterwards and the value that disables them meanwhile; otherwise nothing
/// is kept (0) and nothing written.
pub open spec fn interrupt_mask(gintenr: usize) -> (usize, Option<usize>) {
    if gintenr & GLOBAL_INTERRUPT_ENABLE != 0 {
        (gintenr, Some(gintenr & !GLOBAL_INTERRUPT_ENABLE))
    } else {
        (0usize, None::<usize>)
    }
}

/// The value of `GINTENR` after the protected registers are locked again:
/// its value `gintenr` with the global enable of the kept value `saved`
/// put back.
pub open spec fn interrupts_restored(gintenr: usize, saved: usize) -> usize {
    gintenr | (saved & GLOBAL_INTERRUPT_ENABLE)
}

/// See [`interrupt_mask`].
pub fn mask_interrupts(gintenr: usize) -> (r: (usize, Option<usize>))
    ensures
        r == interrupt_mask(gintenr),
{
    if gintenr & GLOBAL_INTERRUPT_ENABLE != 0 {
        (gintenr, Some(gintenr & !GLOBAL_INTERRUPT_ENABLE))
    } else {
        (0, None)
    }
}

/// See [`interrupts_restored`].
pub fn restored_interrupts(gintenr: usize, saved: usize) -> (r: usize)
    ensures
        r == interrupts_restored(gintenr, saved),
{
    gintenr | (saved & GLOBAL_INTERRUPT_ENABLE)
}

/// Masking interrupts for a protected access and restoring them afterwards
/// gives `GINTENR` back the value it had, whether or not interrupts were
/// enabled.
pub proof fn lemma_safe_access_restores_interrupts(gintenr: usize)
    ensures
        ({
            let m = interrupt_mask(gintenr);
            let during = match m.1 {
                Some(w) => w,
                None => gintenr,
            };
            interrupts_restored(during, m.0) == gintenr
        }),
{
    assert(gintenr & 8usize != 0 ==> (gintenr & !8usize) | (gintenr & 8usize) == gintenr) by (bit_vector);
    assert(gintenr | (0usize & 8usize) == gintenr) by (bit_vector);
}

/// The external 32 MHz crystal.
pub const HSE_FREQUENCY: u32 = 32_000_000;

/// The PLL's output.
pub const PLL_FREQUENCY: u32 = 480_000_000;

/// The core clock after power-on.
pub const POWER_ON_HCLK: u32 = 6_400_000;

/// Source of the 32 kHz clock.
#[derive(Clone, Copy, PartialEq, Eq, Structural, Debug)]
pub enum Clock32KSrc {
    LSI,
    LSE,
}

/// Source of the core clock: the 32 kHz clock, or the crystal or the PLL
/// divided by the given divider (2 to 31; 1 would stop the clock).
#[derive(Clone, Copy, PartialEq, Eq, Structural, Debug)]
pub enum ClockSrc {
    Clock32K,
    HSE(u8),
    PLL(u8),
}

impl Clock32KSrc {
    /// The internal oscillator.
    pub fn default() -> (s: Clock32KSrc)
        ensures
            s == Clock32KSrc::LSI,
    {
        Clock32KSrc::LSI
    }
}

impl ClockSrc {
    /// The PLL divided by 8: 60 MHz.
    pub fn default() -> (s: ClockSrc)
        ensures
            s == ClockSrc::PLL(8),
    {
        ClockSrc::PLL(8)
    }
}

/// How the CH592's clocks are to be set up.
#[derive(Clone, Copy, PartialEq, Eq, Structural, Debug)]
pub struct ClockConfig {
    pub clock32ksrc: Clock32KSrc,
    pub mux: ClockSrc,
}

/// Clock state of the CH592: the core clock in hertz.
#[derive(Clone, Copy, PartialEq, Eq, Structural, Debug)]
pub struct Clocks {
    pub hclk: u32,
}

impl Clocks {
    /// The clocks after power-on.
    pub fn power_on() -> (c: Clocks)
        ensures
            c.hclk == POWER_ON_HCLK,
    {
        Clocks { hclk: POWER_ON_HCLK }
    }
}

/// The waits, in core clock cycles of the clock in use before, while the
/// external 32 kHz crystal starts and after it is tuned.
#[derive(Clone, Copy, PartialEq, Eq, Structural, Debug)]
pub struct LseStartup {
    pub power_on_wait: u32,
    pub tune_wait: u32,
}

/// What setting the clocks up writes: the crystal start-up (when the
/// external 32 kHz crystal is used), the system clock mode (0b10 crystal,
/// 0b01 PLL), the divider field, and the clocks that result.
#[derive(Clone, Copy, PartialEq, Eq, Structural, Debug)]
pub struct FreezePlan {
    pub lse: Option<LseStartup>,
    pub sys_mode: u8,
    pub pll_div: u8,
    pub clocks: Clocks,
}

/// Whether a core clock source can be set up: not the 32 kHz clock, and a
/// divider that is neither 0 nor 1.
pub open spec fn freezable(mux: ClockSrc) -> bool {
    match mux {
        ClockSrc::Clock32K => false,
        ClockSrc::HSE(d) => d != 0 && d != 1,
        ClockSrc::PLL(d) => d != 0 && d != 1,
    }
}

/// The plan for setting the clocks up from `current`.
pub open spec fn freeze_plan(c: ClockConfig, current: Clocks) -> FreezePlan {
    let lse = match c.clock32ksrc {
        Clock32KSrc::LSE => Some(LseStartup { power_on_wait: current.hclk / 10 / 4, tune_wait: current.hclk / 1000 }),
        Clock32KSrc::LSI => None,
    };
    match c.mux {
        ClockSrc::HSE(d) => FreezePlan { lse, sys_mode: 2, pll_div: d % 32, clocks: Clocks { hclk: HSE_FREQUENCY / (d as u32) } },
        ClockSrc::PLL(d) => FreezePlan { lse, sys_mode: 1, pll_div: d % 32, clocks: Clocks { hclk: PLL_FREQUENCY / (d as u32) } },
        ClockSrc::Clock32K => FreezePlan { lse, sys_mode: 0, pll_div: 0, clocks: current },
    }
}

impl ClockConfig {
    /// Whether this configuration can be set up (see [`freezable`]).
    pub fn can_freeze(&self) -> (r: bool)
        ensures
            r == freezable(self.mux),
    {
        match self.mux {
            ClockSrc::Clock32K => false,
            ClockSrc::HSE(d) => d != 0 && d != 1,
            ClockSrc::PLL(d) => d != 0 && d != 1,
        }
    }

    /// The internal 32 kHz oscillator, driving everything.
    pub fn clock_source_lsi() -> (c: ClockConfig)
        ensures
            c == (ClockConfig { mux: ClockSrc::Clock32K, clock32ksrc: Clock32KSrc::LSI }),
    {
        ClockConfig { mux: ClockSrc::Clock32K, clock32ksrc: Clock32KSrc::LSI }
    }

    /// The internal 32 kHz oscillator and the PLL divided by 8.
    pub fn default() -> (c: ClockConfig)
        ensures
            c == (ClockConfig { mux: ClockSrc::PLL(8), clock32ksrc: Clock32KSrc::LSI }),
    {
        ClockConfig { clock32ksrc: Clock32KSrc::default(), mux: ClockSrc::default() }
    }

    /// The PLL divided by 8: 60 MHz.
    pub fn pll_60mhz() -> (c: ClockConfig)
        ensures
            c == (ClockConfig { mux: ClockSrc::PLL(8), clock32ksrc: Clock32KSrc::LSI }),
    {
        let d = Self::default();
        ClockConfig { mux: ClockSrc::PLL(8), ..d }
    }

    /// The PLL divided by 6: 80 MHz.
    pub fn pll_80mhz() -> (c: ClockConfig)
        ensures
            c == (ClockConfig { mux: ClockSrc::PLL(6), clock32ksrc: Clock32KSrc::LSI }),
    {
        let d = Self::default();
        ClockConfig { mux: ClockSrc::PLL(6), ..d }
    }

    /// The same, with the external 32 kHz crystal.
    pub fn use_lse(self) -> (c: ClockConfig)
        ensures
            c == (ClockConfig { clock32ksrc: Clock32KSrc::LSE, ..self }),
    {
        let mut s = self;
        s.clock32ksrc = Clock32KSrc::LSE;
        s
    }

    /// What setting the clocks up from `current` writes and the clocks it
    /// results in (see [`freeze_plan`]).  Running the core from the 32 kHz
    /// clock is not supported, and a divider of 0 or 1 is refused.
    pub fn freeze(self, current: Clocks) -> (p: FreezePlan)
        requires
            freezable(self.mux),
        ensures
            p == freeze_plan(self, current),
    {
        let lse = match self.clock32ksrc {
            Clock32KSrc::LSE => Some(LseStartup { power_on_wait: current.hclk / 10 / 4, tune_wait: current.hclk / 1000 }),
            Clock32KSrc::LSI => None,
        };
        match self.mux {
            ClockSrc::HSE(div) => {
                let bits = div & 0x1f;
                assert(div & 0x1f == div % 32) by (bit_vector);
                FreezePlan { lse, sys_mode: 2, pll_div: bits, clocks: Clocks { hclk: HSE_FREQUENCY / (div as u32) } }
            },
            ClockSrc::PLL(div) => {
                let bits = div & 0x1f;
                assert(div & 0x1f == div % 32) by (bit_vector);
                FreezePlan { lse, sys_mode: 1, pll_div: bits, clocks: Clocks { hclk: PLL_FREQUENCY / (div as u32) } }
            },
            ClockSrc::Clock32K => FreezePlan { lse, sys_mode: 0, pll_div: 0, clocks: current },
        }
    }
}

} // verus!
