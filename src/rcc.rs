//! Clock tree: PLL and bus divider programming, and the frequencies it yields.
use vstd::prelude::*;

use crate::bus::{Bus, BusOp, extends, RegisterBus};
use crate::delay::sdelay;

verus! {

/// Frequency of the high-speed oscillator.
pub const HSE_FREQ: u32 = 24_000_000;
/// Frequency of the low-speed oscillator.
pub const LOSC_FREQ: u32 = 32_768;

pub const CCU_PLL_CPU_CTRL: u32 = 0x01c2_0000;
pub const CCU_PLL_VIDEO_CTRL: u32 = 0x01c2_0010;
pub const CCU_PLL_PERIPH_CTRL: u32 = 0x01c2_0028;
pub const CCU_CPU_CLK_SRC: u32 = 0x01c2_0050;
pub const CCU_AHB_APB_HCLKC_CFG: u32 = 0x01c2_0054;
pub const CCU_DRAM_GATING: u32 = 0x01c2_0100;
pub const CCU_PLL_STABLE_TIME0: u32 = 0x01c2_0200;
pub const CCU_PLL_STABLE_TIME1: u32 = 0x01c2_0204;

/// Lock-time threshold written to both stable-time registers.
pub const PLL_LOCK_TIME: u32 = 0x1ff;
/// Busy-wait budget of a PLL lock.
pub const PLL_LOCK_BUDGET: u32 = 0xffff;

/// PLL enable bit.
pub const PLL_ENABLE: u32 = 0x8000_0000;
/// PLL lock status bit.
pub const PLL_LOCK: u32 = 0x1000_0000;
/// Video PLL: integer mode select.
pub const PLL_VIDEO_INTEGER: u32 = 0x0100_0000;
/// Video PLL: 297 MHz rather than 270 MHz in fractional mode.
pub const PLL_VIDEO_FRAC_297: u32 = 0x0200_0000;
/// Factor fields of the CPU PLL: P, N, K and M.
pub const PLL_CPU_FACTOR_MASK: u32 = 0x0003_1f33;
/// CPU clock source selector field.
pub const CPU_CLK_SRC_MASK: u32 = 0x0003_0000;
/// Front-end and back-end display DRAM clock gates.
pub const DE_DCLK_GATES: u32 = 0x0500_0000;

/// CPU clock source.
#[derive(Clone, Copy, PartialEq, Eq, Debug, Structural)]
pub enum CpuClkSrc {
    /// 32.768 kHz low-speed oscillator.
    Losc,
    /// 24 MHz oscillator, the reset default.
    Osc24M,
    /// Output of the CPU PLL.
    PllCpu,
}

impl CpuClkSrc {
    pub open spec fn bits_spec(self) -> u32 {
        match self {
            CpuClkSrc::Losc => 0,
            CpuClkSrc::Osc24M => 1,
            CpuClkSrc::PllCpu => 2,
        }
    }

    /// Encoding in the selector field.
    pub fn bits(self) -> (r: u32)
        ensures
            r == self.bits_spec(),
    {
        match self {
            CpuClkSrc::Losc => 0,
            CpuClkSrc::Osc24M => 1,
            CpuClkSrc::PllCpu => 2,
        }
    }
}

/// Output divider P of the CPU PLL.
#[derive(Clone, Copy, PartialEq, Eq, Debug, Structural)]
pub enum PllCpuP {
    Div1,
    Div2,
    Div4,
}

impl PllCpuP {
    pub open spec fn bits_spec(self) -> u32 {
        match self {
            PllCpuP::Div1 => 0,
            PllCpuP::Div2 => 1,
            PllCpuP::Div4 => 2,
        }
    }

    pub open spec fn divisor_spec(self) -> u32 {
        match self {
            PllCpuP::Div1 => 1,
            PllCpuP::Div2 => 2,
            PllCpuP::Div4 => 4,
        }
    }

    pub fn bits(self) -> (r: u32)
        ensures
            r == self.bits_spec(),
    {
        match self {
            PllCpuP::Div1 => 0,
            PllCpuP::Div2 => 1,
            PllCpuP::Div4 => 2,
        }
    }

    pub fn divisor(self) -> (r: u32)
        ensures
            r == self.divisor_spec(),
    {
        match self {
            PllCpuP::Div1 => 1,
            PllCpuP::Div2 => 2,
            PllCpuP::Div4 => 4,
        }
    }
}

/// CPU PLL factors: output = 24 MHz * N * K / (M * P).
#[derive(Clone, Copy, Debug)]
pub struct PllCpu {
    /// Factor N, 1..=32.
    pub n: u8,
    /// Factor K, 1..=4.
    pub k: u8,
    /// Factor M, 1..=4.
    pub m: u8,
    pub p: PllCpuP,
}

impl PllCpu {
    pub open spec fn wf(self) -> bool {
        &&& 1 <= self.n <= 32
        &&& 1 <= self.k <= 4
        &&& 1 <= self.m <= 4
    }

    pub open spec fn freq_spec(self) -> u32 {
        (24_000_000 * self.n * self.k / (self.m * self.p.divisor_spec())) as u32
    }

    /// 720 MHz: 24 * 30 / 1.
    pub fn freq_720mhz() -> (r: PllCpu)
        ensures
            r.n == 30 && r.k == 1 && r.m == 1 && r.p == PllCpuP::Div1,
            r.wf(),
    {
        PllCpu { n: 30, k: 1, m: 1, p: PllCpuP::Div1 }
    }

    /// 408 MHz: 24 * 17 / 1.
    pub fn freq_408mhz() -> (r: PllCpu)
        ensures
            r.n == 17 && r.k == 1 && r.m == 1 && r.p == PllCpuP::Div1,
            r.wf(),
    {
        PllCpu { n: 17, k: 1, m: 1, p: PllCpuP::Div1 }
    }

    /// 600 MHz: 24 * 25 / 1.
    pub fn freq_600mhz() -> (r: PllCpu)
        ensures
            r.n == 25 && r.k == 1 && r.m == 1 && r.p == PllCpuP::Div1,
            r.wf(),
    {
        PllCpu { n: 25, k: 1, m: 1, p: PllCpuP::Div1 }
    }

    /// Output frequency in Hz.
    pub fn freq_hz(&self) -> (r: u32)
        requires
            self.wf(),
        ensures
            r == self.freq_spec(),
    {
        let p_val = self.p.divisor();
        assert(24_000_000 * self.n * self.k <= 24_000_000 * 32 * 4) by (nonlinear_arith)
            requires
                1 <= self.n <= 32,
                1 <= self.k <= 4,
        ;
        assert(1 <= self.m * p_val <= 16) by (nonlinear_arith)
            requires
                1 <= self.m <= 4,
                1 <= p_val <= 4,
        ;
        24_000_000 * (self.n as u32) * (self.k as u32) / ((self.m as u32) * p_val)
    }

    /// Control word with the factors of `self` written into `old`.
    pub open spec fn ctrl_word_spec(self, old: u32) -> u32 {
        (old & !PLL_CPU_FACTOR_MASK) | PLL_ENABLE | (self.p.bits_spec() << 16u32) | (((self.n - 1)
            as u32) << 8u32) | (((self.k - 1) as u32) << 4u32) | ((self.m - 1) as u32)
    }

    pub fn ctrl_word(&self, old: u32) -> (r: u32)
        requires
            self.wf(),
        ensures
            r == self.ctrl_word_spec(old),
    {
        (old & !PLL_CPU_FACTOR_MASK) | PLL_ENABLE | (self.p.bits() << 16) | (((self.n - 1) as u32)
            << 8) | (((self.k - 1) as u32) << 4) | ((self.m - 1) as u32)
    }
}

/// Peripheral PLL factors: output = 24 MHz * N * K.
#[derive(Clone, Copy, Debug)]
pub struct PllPeriph {
    /// Factor N, 1..=32.
    pub n: u8,
    /// Factor K, 1..=4.
    pub k: u8,
}

impl PllPeriph {
    pub open spec fn wf(self) -> bool {
        &&& 1 <= self.n <= 32
        &&& 1 <= self.k <= 4
    }

    pub open spec fn freq_spec(self) -> u32 {
        (24_000_000 * self.n * self.k) as u32
    }

    /// 600 MHz: 24 * 25.
    pub fn freq_600mhz() -> (r: PllPeriph)
        ensures
            r.n == 25 && r.k == 1,
            r.wf(),
    {
        PllPeriph { n: 25, k: 1 }
    }

    /// Output frequency in Hz.
    pub fn freq_hz(&self) -> (r: u32)
        requires
            self.wf(),
        ensures
            r == self.freq_spec(),
    {
        assert(24_000_000 * self.n * self.k <= 24_000_000 * 32 * 4) by (nonlinear_arith)
            requires
                1 <= self.n <= 32,
                1 <= self.k <= 4,
        ;
        24_000_000 * (self.n as u32) * (self.k as u32)
    }

    /// Control word: enabled, with output divider M fixed at 1.
    pub open spec fn ctrl_word_spec(self) -> u32 {
        PLL_ENABLE | (((self.n - 1) as u32) << 8u32) | (((self.k - 1) as u32) << 4u32)
    }

    pub fn ctrl_word(&self) -> (r: u32)
        requires
            self.wf(),
        ensures
            r == self.ctrl_word_spec(),
    {
        PLL_ENABLE | (((self.n - 1) as u32) << 8) | (((self.k - 1) as u32) << 4)
    }
}

/// Video PLL mode.
#[derive(Clone, Copy, PartialEq, Eq, Debug, Structural)]
pub enum PllVideoMode {
    /// Output = 24 MHz * N / M, with N in 1..=128 and M in 1..=16.
    Integer { n: u8, m: u8 },
    /// Fixed 297 MHz (`true`) or 270 MHz (`false`).
    Fractional { out_297mhz: bool },
}

/// Video PLL configuration.
#[derive(Clone, Copy, Debug)]
pub struct PllVideo {
    pub mode: PllVideoMode,
}

impl PllVideo {
    pub open spec fn wf(self) -> bool {
        match self.mode {
            PllVideoMode::Integer { n, m } => 1 <= n <= 128 && 1 <= m <= 16,
            PllVideoMode::Fractional { .. } => true,
        }
    }

    pub open spec fn freq_spec(self) -> u32 {
        match self.mode {
            PllVideoMode::Integer { n, m } => (24_000_000 * n / (m as int)) as u32,
            PllVideoMode::Fractional { out_297mhz } => if out_297mhz {
                297_000_000
            } else {
                270_000_000
            },
        }
    }

    /// About 198 MHz in integer mode: 24 * 66 / 8.
    pub fn freq_198mhz() -> (r: PllVideo)
        ensures
            r.mode == (PllVideoMode::Integer { n: 66, m: 8 }),
            r.wf(),
    {
        PllVideo { mode: PllVideoMode::Integer { n: 66, m: 8 } }
    }

    /// 297 MHz in fractional mode.
    pub fn freq_297mhz() -> (r: PllVideo)
        ensures
            r.mode == (PllVideoMode::Fractional { out_297mhz: true }),
    {
        PllVideo { mode: PllVideoMode::Fractional { out_297mhz: true } }
    }

    /// 270 MHz in fractional mode.
    pub fn freq_270mhz() -> (r: PllVideo)
        ensures
            r.mode == (PllVideoMode::Fractional { out_297mhz: false }),
    {
        PllVideo { mode: PllVideoMode::Fractional { out_297mhz: false } }
    }

    /// Output frequency in Hz.
    pub fn freq_hz(&self) -> (r: u32)
        requires
            self.wf(),
        ensures
            r == self.freq_spec(),
    {
        match self.mode {
            PllVideoMode::Integer { n, m } => {
                assert(24_000_000 * n <= 24_000_000 * 128) by (nonlinear_arith)
                    requires
                        n <= 128,
                ;
                24_000_000 * (n as u32) / (m as u32)
            },
            PllVideoMode::Fractional { out_297mhz } => if out_297mhz {
                297_000_000
            } else {
                270_000_000
            },
        }
    }

    /// Control word: integer mode with its factors, or fractional mode with the
    /// pre-divider forced to zero.
    pub open spec fn ctrl_word_spec(self) -> u32 {
        match self.mode {
            PllVideoMode::Integer { n, m } => PLL_ENABLE | PLL_VIDEO_INTEGER | (((n - 1) as u32)
                << 8u32) | ((m - 1) as u32),
            PllVideoMode::Fractional { out_297mhz } => if out_297mhz {
                PLL_ENABLE | PLL_VIDEO_FRAC_297
            } else {
                PLL_ENABLE
            },
        }
    }

    pub fn ctrl_word(&self) -> (r: u32)
        requires
            self.wf(),
        ensures
            r == self.ctrl_word_spec(),
    {
        match self.mode {
            PllVideoMode::Integer { n, m } => PLL_ENABLE | PLL_VIDEO_INTEGER | (((n - 1) as u32)
                << 8) | ((m - 1) as u32),
            PllVideoMode::Fractional { out_297mhz } => if out_297mhz {
                PLL_ENABLE | PLL_VIDEO_FRAC_297
            } else {
                PLL_ENABLE
            },
        }
    }
}

/// AHB clock source.
#[derive(Clone, Copy, PartialEq, Eq, Debug, Structural)]
pub enum AhbClkSrc {
    Losc,
    Osc24M,
    CpuClk,
    /// Peripheral PLL through the AHB pre-divider.
    PllPeriph,
}

/// AHB pre-divider, applied when the source is the peripheral PLL.
#[derive(Clone, Copy, PartialEq, Eq, Debug, Structural)]
pub enum AhbPreDiv {
    Div1,
    Div2,
    Div3,
    Div4,
}

/// AHB clock divider.
#[derive(Clone, Copy, PartialEq, Eq, Debug, Structural)]
pub enum AhbDiv {
    Div1,
    Div2,
    Div4,
    Div8,
}

/// APB clock divider, from the AHB clock.
#[derive(Clone, Copy, PartialEq, Eq, Debug, Structural)]
pub enum ApbDiv {
    Div2,
    Div4,
    Div8,
}

/// HCLKC divider, from the CPU clock.
#[derive(Clone, Copy, PartialEq, Eq, Debug, Structural)]
pub enum HclkcDiv {
    Div1,
    Div2,
    Div3,
    Div4,
}

impl AhbClkSrc {
    pub open spec fn bits_spec(self) -> u32 {
        match self {
            AhbClkSrc::Losc => 0,
            AhbClkSrc::Osc24M => 1,
            AhbClkSrc::CpuClk => 2,
            AhbClkSrc::PllPeriph => 3,
        }
    }

    pub fn bits(self) -> (r: u32)
        ensures
            r == self.bits_spec(),
    {
        match self {
            AhbClkSrc::Losc => 0,
            AhbClkSrc::Osc24M => 1,
            AhbClkSrc::CpuClk => 2,
            AhbClkSrc::PllPeriph => 3,
        }
    }
}

impl AhbPreDiv {
    pub open spec fn bits_spec(self) -> u32 {
        match self {
            AhbPreDiv::Div1 => 0,
            AhbPreDiv::Div2 => 1,
            AhbPreDiv::Div3 => 2,
            AhbPreDiv::Div4 => 3,
        }
    }

    pub open spec fn divisor_spec(self) -> u32 {
        (self.bits_spec() + 1) as u32
    }

    pub fn bits(self) -> (r: u32)
        ensures
            r == self.bits_spec(),
    {
        match self {
            AhbPreDiv::Div1 => 0,
            AhbPreDiv::Div2 => 1,
            AhbPreDiv::Div3 => 2,
            AhbPreDiv::Div4 => 3,
        }
    }

    pub fn divisor(self) -> (r: u32)
        ensures
            r == self.divisor_spec(),
    {
        match self {
            AhbPreDiv::Div1 => 1,
            AhbPreDiv::Div2 => 2,
            AhbPreDiv::Div3 => 3,
            AhbPreDiv::Div4 => 4,
        }
    }
}

impl AhbDiv {
    pub open spec fn bits_spec(self) -> u32 {
        match self {
            AhbDiv::Div1 => 0,
            AhbDiv::Div2 => 1,
            AhbDiv::Div4 => 2,
            AhbDiv::Div8 => 3,
        }
    }

    pub open spec fn divisor_spec(self) -> u32 {
        match self {
            AhbDiv::Div1 => 1,
            AhbDiv::Div2 => 2,
            AhbDiv::Div4 => 4,
            AhbDiv::Div8 => 8,
        }
    }

    pub fn bits(self) -> (r: u32)
        ensures
            r == self.bits_spec(),
    {
        match self {
            AhbDiv::Div1 => 0,
            AhbDiv::Div2 => 1,
            AhbDiv::Div4 => 2,
            AhbDiv::Div8 => 3,
        }
    }

    pub fn divisor(self) -> (r: u32)
        ensures
            r == self.divisor_spec(),
    {
        match self {
            AhbDiv::Div1 => 1,
            AhbDiv::Div2 => 2,
            AhbDiv::Div4 => 4,
            AhbDiv::Div8 => 8,
        }
    }
}

impl ApbDiv {
    pub open spec fn bits_spec(self) -> u32 {
        match self {
            ApbDiv::Div2 => 1,
            ApbDiv::Div4 => 2,
            ApbDiv::Div8 => 3,
        }
    }

    pub open spec fn divisor_spec(self) -> u32 {
        match self {
            ApbDiv::Div2 => 2,
            ApbDiv::Div4 => 4,
            ApbDiv::Div8 => 8,
        }
    }

    pub fn bits(self) -> (r: u32)
        ensures
            r == self.bits_spec(),
    {
        match self {
            ApbDiv::Div2 => 1,
            ApbDiv::Div4 => 2,
            ApbDiv::Div8 => 3,
        }
    }

    pub fn divisor(self) -> (r: u32)
        ensures
            r == self.divisor_spec(),
    {
        match self {
            ApbDiv::Div2 => 2,
            ApbDiv::Div4 => 4,
            ApbDiv::Div8 => 8,
        }
    }
}

impl HclkcDiv {
    pub open spec fn bits_spec(self) -> u32 {
        match self {
            HclkcDiv::Div1 => 0,
            HclkcDiv::Div2 => 1,
            HclkcDiv::Div3 => 2,
            HclkcDiv::Div4 => 3,
        }
    }

    pub fn bits(self) -> (r: u32)
        ensures
            r == self.bits_spec(),
    {
        match self {
            HclkcDiv::Div1 => 0,
            HclkcDiv::Div2 => 1,
            HclkcDiv::Div3 => 2,
            HclkcDiv::Div4 => 3,
        }
    }
}


/// Clock tree configuration. A PLL left at `None` is not touched.
#[derive(Clone, Copy, Debug)]
pub struct Config {
    pub pll_cpu: Option<PllCpu>,
    pub pll_periph: Option<PllPeriph>,
    pub pll_video: Option<PllVideo>,
    pub cpu_src: CpuClkSrc,
    pub ahb_src: AhbClkSrc,
    pub ahb_pre_div: AhbPreDiv,
    pub ahb_div: AhbDiv,
    pub apb_div: ApbDiv,
    pub hclkc_div: HclkcDiv,
    /// Gate on the display engine's DRAM clocks.
    pub de_dram_gating: bool,
}

impl Config {
    /// Every PLL given has factors in range.
    pub open spec fn wf(self) -> bool {
        &&& (self.pll_cpu matches Some(p) ==> p.wf())
        &&& (self.pll_periph matches Some(p) ==> p.wf())
        &&& (self.pll_video matches Some(p) ==> p.wf())
    }

    /// Bus divider register: HCLKC divider, AHB source, APB ratio, AHB
    /// pre-divider and AHB divider, written together.
    pub open spec fn bus_cfg_word_spec(self) -> u32 {
        (self.hclkc_div.bits_spec() << 16u32) | (self.ahb_src.bits_spec() << 12u32) | (
        self.apb_div.bits_spec() << 8u32) | (self.ahb_pre_div.bits_spec() << 6u32) | (
        self.ahb_div.bits_spec() << 4u32)
    }

    pub fn bus_cfg_word(&self) -> (r: u32)
        ensures
            r == self.bus_cfg_word_spec(),
    {
        (self.hclkc_div.bits() << 16) | (self.ahb_src.bits() << 12) | (self.apb_div.bits() << 8) | (
        self.ahb_pre_div.bits() << 6) | (self.ahb_div.bits() << 4)
    }
}

impl Default for Config {
    /// CPU at 720 MHz from its PLL, peripheral PLL at 600 MHz, video PLL at
    /// 198 MHz, AHB at 200 MHz and APB at 100 MHz.
    fn default() -> (r: Config)
        ensures
            r.wf(),
            r.pll_cpu == Some(PllCpu { n: 30, k: 1, m: 1, p: PllCpuP::Div1 }),
            r.pll_periph == Some(PllPeriph { n: 25, k: 1 }),
            r.pll_video == Some(PllVideo { mode: PllVideoMode::Integer { n: 66, m: 8 } }),
            r.cpu_src == CpuClkSrc::PllCpu,
            r.ahb_src == AhbClkSrc::PllPeriph,
            r.ahb_pre_div == AhbPreDiv::Div3,
            r.ahb_div == AhbDiv::Div1,
            r.apb_div == ApbDiv::Div2,
            r.hclkc_div == HclkcDiv::Div1,
            r.de_dram_gating,
    {
        Config {
            pll_cpu: Some(PllCpu::freq_720mhz()),
            pll_periph: Some(PllPeriph::freq_600mhz()),
            pll_video: Some(PllVideo::freq_198mhz()),
            cpu_src: CpuClkSrc::PllCpu,
            ahb_src: AhbClkSrc::PllPeriph,
            ahb_pre_div: AhbPreDiv::Div3,
            ahb_div: AhbDiv::Div1,
            apb_div: ApbDiv::Div2,
            hclkc_div: HclkcDiv::Div1,
            de_dram_gating: true,
        }
    }
}

/// Frequencies of the clock tree, in Hz.
#[derive(Clone, Copy, Debug, PartialEq, Eq, Structural)]
pub struct Clocks {
    /// CPU clock.
    pub sysclk: u32,
    /// AHB clock.
    pub hclk: u32,
    /// APB clock.
    pub pclk: u32,
}

impl Default for Clocks {
    /// The reset state: everything runs from the 24 MHz oscillator.
    fn default() -> (r: Clocks)
        ensures
            r == (Clocks { sysclk: HSE_FREQ, hclk: HSE_FREQ, pclk: HSE_FREQ }),
    {
        Clocks { sysclk: HSE_FREQ, hclk: HSE_FREQ, pclk: HSE_FREQ }
    }
}

/// CPU clock selected by `config`.
pub open spec fn sysclk_spec(config: Config) -> u32 {
    match config.cpu_src {
        CpuClkSrc::Losc => LOSC_FREQ,
        CpuClkSrc::Osc24M => HSE_FREQ,
        CpuClkSrc::PllCpu => match config.pll_cpu {
            Some(p) => p.freq_spec(),
            None => HSE_FREQ,
        },
    }
}

/// Input of the AHB divider selected by `config`.
pub open spec fn ahb_input_spec(config: Config) -> u32 {
    match config.ahb_src {
        AhbClkSrc::Losc => LOSC_FREQ,
        AhbClkSrc::Osc24M => HSE_FREQ,
        AhbClkSrc::CpuClk => sysclk_spec(config),
        AhbClkSrc::PllPeriph => {
            let periph = match config.pll_periph {
                Some(p) => p.freq_spec(),
                None => HSE_FREQ,
            };
            (periph / config.ahb_pre_div.divisor_spec()) as u32
        },
    }
}

/// The clocks that `config` yields.
pub open spec fn clocks_spec(config: Config) -> Clocks {
    let hclk = (ahb_input_spec(config) / config.ahb_div.divisor_spec()) as u32;
    Clocks {
        sysclk: sysclk_spec(config),
        hclk,
        pclk: (hclk / config.apb_div.divisor_spec()) as u32,
    }
}

/// Computes the clocks that `config` yields.
pub fn update_clocks(config: &Config) -> (r: Clocks)
    requires
        config.wf(),
    ensures
        r == clocks_spec(*config),
{
    let sysclk = match config.cpu_src {
        CpuClkSrc::Losc => LOSC_FREQ,
        CpuClkSrc::Osc24M => HSE_FREQ,
        CpuClkSrc::PllCpu => match &config.pll_cpu {
            Some(p) => p.freq_hz(),
            None => HSE_FREQ,
        },
    };
    let pll_periph_hz = match &config.pll_periph {
        Some(p) => p.freq_hz(),
        None => HSE_FREQ,
    };
    let ahb_pre = config.ahb_pre_div.divisor();
    let ahb_ratio = config.ahb_div.divisor();
    let ahb_input = match config.ahb_src {
        AhbClkSrc::Losc => LOSC_FREQ,
        AhbClkSrc::Osc24M => HSE_FREQ,
        AhbClkSrc::CpuClk => sysclk,
        AhbClkSrc::PllPeriph => pll_periph_hz / ahb_pre,
    };
    let hclk = ahb_input / ahb_ratio;
    let apb_ratio = config.apb_div.divisor();
    let pclk = hclk / apb_ratio;
    Clocks { sysclk, hclk, pclk }
}

/// No access in `t[a..b]` writes `x`.
pub open spec fn avoids(t: Seq<BusOp>, a: int, b: int, x: u32) -> bool {
    forall|k: int| a <= k < b ==> !(#[trigger] t[k]).is_write_to(x)
}

/// `t[a..b]` polls the lock bit of `reg`, at most `PLL_LOCK_BUDGET` times,
/// stopping at the first poll that sees it set.
pub open spec fn lock_poll(t: Seq<BusOp>, a: int, b: int, reg: u32) -> bool {
    &&& 0 <= a <= b <= t.len()
    &&& b - a <= PLL_LOCK_BUDGET
    &&& forall|k: int| a <= k < b ==> (#[trigger] t[k]).is_read_of(reg)
    &&& forall|k: int| a <= k < b - 1 ==> (#[trigger] t[k]).value() & PLL_LOCK == 0
}

/// Polls the lock bit of the PLL control register `reg`, at most
/// `PLL_LOCK_BUDGET` times. An expired budget is not an error: the caller
/// carries on with whatever frequency resulted.
fn wait_pll_lock<H: RegisterBus>(bus: &mut Bus<H>, reg: u32) -> (locked: bool)
    ensures
        extends(old(bus).trace(), final(bus).trace()),
        lock_poll(final(bus).trace(), old(bus).trace().len() as int, final(bus).trace().len() as int, reg),
        locked == (final(bus).trace().len() > old(bus).trace().len() && final(bus).trace().last().value()
            & PLL_LOCK != 0),
{
    let ghost a = old(bus).trace().len() as int;
    let mut timeout: u32 = PLL_LOCK_BUDGET;
    while timeout > 0
        invariant
            timeout <= PLL_LOCK_BUDGET,
            a == old(bus).trace().len(),
            bus.trace().len() == a + (PLL_LOCK_BUDGET - timeout),
            extends(old(bus).trace(), bus.trace()),
            forall|k: int| a <= k < bus.trace().len() ==> (#[trigger] bus.trace()[k]).is_read_of(reg),
            forall|k: int| a <= k < bus.trace().len() ==> (#[trigger] bus.trace()[k]).value() & PLL_LOCK == 0,
        decreases timeout,
    {
        if bus.read32(reg) & PLL_LOCK != 0 {
            return true;
        }
        timeout = timeout - 1;
    }
    false
}

/// Waits for the CPU PLL to lock: reads only, at most `PLL_LOCK_BUDGET` of
/// them, stopping at the first that sees the lock bit.
fn wait_pll_cpu_stable<H: RegisterBus>(bus: &mut Bus<H>) -> (locked: bool)
    ensures
        extends(old(bus).trace(), final(bus).trace()),
        lock_poll(final(bus).trace(), old(bus).trace().len() as int, final(bus).trace().len() as int, CCU_PLL_CPU_CTRL),
        locked == (final(bus).trace().len() > old(bus).trace().len() && final(bus).trace().last().value()
            & PLL_LOCK != 0),
{
    wait_pll_lock(bus, CCU_PLL_CPU_CTRL)
}

/// Waits for the peripheral PLL to lock, as [`wait_pll_cpu_stable`] does.
fn wait_pll_periph_stable<H: RegisterBus>(bus: &mut Bus<H>) -> (locked: bool)
    ensures
        extends(old(bus).trace(), final(bus).trace()),
        lock_poll(final(bus).trace(), old(bus).trace().len() as int, final(bus).trace().len() as int, CCU_PLL_PERIPH_CTRL),
        locked == (final(bus).trace().len() > old(bus).trace().len() && final(bus).trace().last().value()
            & PLL_LOCK != 0),
{
    wait_pll_lock(bus, CCU_PLL_PERIPH_CTRL)
}

/// Waits for the video PLL to lock, as [`wait_pll_cpu_stable`] does.
fn wait_pll_video_stable<H: RegisterBus>(bus: &mut Bus<H>) -> (locked: bool)
    ensures
        extends(old(bus).trace(), final(bus).trace()),
        lock_poll(final(bus).trace(), old(bus).trace().len() as int, final(bus).trace().len() as int, CCU_PLL_VIDEO_CTRL),
        locked == (final(bus).trace().len() > old(bus).trace().len() && final(bus).trace().last().value()
            & PLL_LOCK != 0),
{
    wait_pll_lock(bus, CCU_PLL_VIDEO_CTRL)
}

/// `t[k]` reads the CPU clock source register and `t[k + 1]` writes it back
/// with `src` selected.
pub open spec fn cpu_src_switch(t: Seq<BusOp>, k: int, src: CpuClkSrc) -> bool {
    &&& 0 <= k
    &&& k + 1 < t.len()
    &&& t[k].is_read_of(CCU_CPU_CLK_SRC)
    &&& t[k + 1] == (BusOp::Write {
        addr: CCU_CPU_CLK_SRC,
        value: (t[k].value() & !CPU_CLK_SRC_MASK) | (src.bits_spec() << 16u32),
    })
}

/// Selects the CPU clock source, keeping the other bits of its register.
fn set_cpu_src<H: RegisterBus>(bus: &mut Bus<H>, src: CpuClkSrc)
    ensures
        extends(old(bus).trace(), final(bus).trace()),
        final(bus).trace().len() == old(bus).trace().len() + 2,
        cpu_src_switch(final(bus).trace(), old(bus).trace().len() as int, src),
{
    let v = bus.read32(CCU_CPU_CLK_SRC);
    bus.write32(CCU_CPU_CLK_SRC, (v & !CPU_CLK_SRC_MASK) | (src.bits() << 16));
}

/// Programs the clock tree and returns the clocks it now runs at.
///
/// The CPU is first moved to the 24 MHz oscillator so that no PLL is
/// reprogrammed under it; the video and peripheral PLLs follow, then the bus
/// dividers with the AHB source in one write, the display DRAM gates, the CPU
/// PLL, and finally the CPU source chosen in `config`. A PLL that does not
/// lock within its budget is not reported.
pub fn init<H: RegisterBus>(bus: &mut Bus<H>, config: &Config) -> (r: Clocks)
    requires
        config.wf(),
    ensures
        r == clocks_spec(*config),
        extends(old(bus).trace(), final(bus).trace()),
        final(bus).trace().len() >= old(bus).trace().len() + 6,
        final(bus).trace()[old(bus).trace().len() as int] == (BusOp::Write {
            addr: CCU_PLL_STABLE_TIME0,
            value: PLL_LOCK_TIME,
        }),
        final(bus).trace()[old(bus).trace().len() as int + 1] == (BusOp::Write {
            addr: CCU_PLL_STABLE_TIME1,
            value: PLL_LOCK_TIME,
        }),
        cpu_src_switch(final(bus).trace(), old(bus).trace().len() as int + 2, CpuClkSrc::Osc24M),
        cpu_src_switch(final(bus).trace(), final(bus).trace().len() as int - 2, config.cpu_src),
        // No PLL is written before the CPU has moved to the oscillator, and a
        // PLL given as `None` is never written.
        avoids(final(bus).trace(), old(bus).trace().len() as int, old(bus).trace().len() as int + 4, CCU_PLL_VIDEO_CTRL),
        avoids(final(bus).trace(), old(bus).trace().len() as int, old(bus).trace().len() as int + 4, CCU_PLL_PERIPH_CTRL),
        config.pll_video is None ==> avoids(final(bus).trace(), old(bus).trace().len() as int, final(bus).trace().len() as int, CCU_PLL_VIDEO_CTRL),
        config.pll_periph is None ==> avoids(final(bus).trace(), old(bus).trace().len() as int, final(bus).trace().len() as int, CCU_PLL_PERIPH_CTRL),
        config.pll_cpu is None ==> avoids(final(bus).trace(), old(bus).trace().len() as int, final(bus).trace().len() as int, CCU_PLL_CPU_CTRL),
        // Each PLL given is written with its control word.
        config.pll_video matches Some(v) ==> final(bus).trace()[old(bus).trace().len() as int + 4] == (BusOp::Write {
            addr: CCU_PLL_VIDEO_CTRL,
            value: v.ctrl_word_spec(),
        }),
        exists|kb: int|
            {
                &&& old(bus).trace().len() + 4 <= kb < final(bus).trace().len()
                // The bus dividers and AHB source in one write ...
                &&& #[trigger] final(bus).trace()[kb] == (BusOp::Write {
                    addr: CCU_AHB_APB_HCLKC_CFG,
                    value: config.bus_cfg_word_spec(),
                })
                &&& avoids(final(bus).trace(), old(bus).trace().len() as int, kb, CCU_AHB_APB_HCLKC_CFG)
                &&& avoids(final(bus).trace(), kb + 1, final(bus).trace().len() as int, CCU_AHB_APB_HCLKC_CFG)
                // ... after the peripheral PLL and before the CPU PLL.
                &&& avoids(final(bus).trace(), old(bus).trace().len() as int, kb, CCU_PLL_CPU_CTRL)
                &&& avoids(final(bus).trace(), kb, final(bus).trace().len() as int, CCU_PLL_PERIPH_CTRL)
                &&& (config.pll_periph matches Some(pp) ==> exists|k: int|
                    old(bus).trace().len() + 4 <= k < kb && #[trigger] final(bus).trace()[k] == (BusOp::Write {
                        addr: CCU_PLL_PERIPH_CTRL,
                        value: pp.ctrl_word_spec(),
                    }))
                &&& (config.pll_cpu matches Some(c) ==> exists|k: int|
                    kb < k && k + 1 < final(bus).trace().len() && final(bus).trace()[k].is_read_of(CCU_PLL_CPU_CTRL)
                        && #[trigger] final(bus).trace()[k + 1] == (BusOp::Write {
                        addr: CCU_PLL_CPU_CTRL,
                        value: c.ctrl_word_spec(final(bus).trace()[k].value()),
                    }))
            },
{
    bus.write32(CCU_PLL_STABLE_TIME0, PLL_LOCK_TIME);
    bus.write32(CCU_PLL_STABLE_TIME1, PLL_LOCK_TIME);

    set_cpu_src(bus, CpuClkSrc::Osc24M);
    let ghost t_safe = bus.trace();
    sdelay(100);

    let ghost a = old(bus).trace().len() as int;
    if let Some(pll_video) = &config.pll_video {
        bus.write32(CCU_PLL_VIDEO_CTRL, pll_video.ctrl_word());
        sdelay(100);
        wait_pll_video_stable(bus);
    }
    let ghost tv = bus.trace();

    if let Some(pll_periph) = &config.pll_periph {
        bus.write32(CCU_PLL_PERIPH_CTRL, pll_periph.ctrl_word());
        sdelay(100);
        wait_pll_periph_stable(bus);
    }
    let ghost tp = bus.trace();

    bus.write32(CCU_AHB_APB_HCLKC_CFG, config.bus_cfg_word());
    let ghost tb = bus.trace();
    sdelay(100);

    if config.de_dram_gating {
        let v = bus.read32(CCU_DRAM_GATING);
        bus.write32(CCU_DRAM_GATING, v | DE_DCLK_GATES);
        sdelay(100);
    }
    let ghost tg = bus.trace();

    if let Some(pll_cpu) = &config.pll_cpu {
        let v = bus.read32(CCU_PLL_CPU_CTRL);
        bus.write32(CCU_PLL_CPU_CTRL, pll_cpu.ctrl_word(v));
        wait_pll_cpu_stable(bus);
    }
    let ghost tc = bus.trace();

    set_cpu_src(bus, config.cpu_src);
    sdelay(100);
    proof {
        let t = bus.trace();
        let k = old(bus).trace().len() as int + 2;
        assert(t[k] == t_safe[k] && t[k + 1] == t_safe[k + 1]);
        let s4 = a + 4;
        assert(t_safe.len() == s4);
        let kb = tp.len() as int;
        // Which registers each stretch of the run may write.
        assert forall|j: int| a <= j < t.len() implies {
            let op = #[trigger] t[j];
            &&& (j < s4 ==> !op.is_write_to(CCU_PLL_VIDEO_CTRL) && !op.is_write_to(CCU_PLL_PERIPH_CTRL)
                && !op.is_write_to(CCU_PLL_CPU_CTRL) && !op.is_write_to(CCU_AHB_APB_HCLKC_CFG))
            &&& (s4 <= j < tv.len() ==> !op.is_write_to(CCU_PLL_PERIPH_CTRL) && !op.is_write_to(CCU_PLL_CPU_CTRL)
                && !op.is_write_to(CCU_AHB_APB_HCLKC_CFG) && (config.pll_video is None ==> false))
            &&& (s4 < j < tv.len() ==> !op.is_write())
            &&& (tv.len() <= j < kb ==> !op.is_write_to(CCU_PLL_VIDEO_CTRL) && !op.is_write_to(CCU_PLL_CPU_CTRL)
                && !op.is_write_to(CCU_AHB_APB_HCLKC_CFG) && (config.pll_periph is None ==> false))
            &&& (tv.len() < j < kb ==> !op.is_write())
            &&& (kb < j ==> !op.is_write_to(CCU_PLL_VIDEO_CTRL) && !op.is_write_to(CCU_PLL_PERIPH_CTRL)
                && !op.is_write_to(CCU_AHB_APB_HCLKC_CFG))
            &&& (kb < j < tc.len() && j >= tg.len() ==> (config.pll_cpu is Some))
        } by {
            if j < s4 {
                assert(t[j] == t_safe[j]);
            } else if j < tv.len() {
                assert(t[j] == tv[j]);
            } else if j < kb {
                assert(t[j] == tp[j]);
            } else if j == kb {
            } else if j < tg.len() {
                assert(t[j] == tg[j]);
            } else if j < tc.len() {
                assert(t[j] == tc[j]);
            }
        }
        assert(t[kb] == tb[kb]);
        assert(t[s4] == tv[s4] || config.pll_video is None);
        if let Some(pp) = config.pll_periph {
            assert(t[tv.len() as int] == tp[tv.len() as int]);
        }
        if let Some(c) = config.pll_cpu {
            let kc = tg.len() as int;
            assert(t[kc] == tc[kc] && t[kc + 1] == tc[kc + 1]);
        }
    }

    update_clocks(config)
}

} // verus!
