use f1c100s_hal::bus::{Bus, MemoryBus};
use f1c100s_hal::rcc::{
    init, update_clocks, AhbClkSrc, AhbDiv, AhbPreDiv, ApbDiv, Clocks, Config, CpuClkSrc, HclkcDiv, PllCpu,
    PllCpuP, PllPeriph, PllVideo, PllVideoMode, CCU_AHB_APB_HCLKC_CFG, CCU_CPU_CLK_SRC, CCU_PLL_CPU_CTRL,
    CCU_PLL_PERIPH_CTRL, CCU_PLL_VIDEO_CTRL,
};

fn reference_config() -> Config {
    Config {
        pll_cpu: Some(PllCpu::freq_720mhz()),
        pll_periph: Some(PllPeriph::freq_600mhz()),
        pll_video: None,
        cpu_src: CpuClkSrc::PllCpu,
        ahb_src: AhbClkSrc::PllPeriph,
        ahb_pre_div: AhbPreDiv::Div3,
        ahb_div: AhbDiv::Div1,
        apb_div: ApbDiv::Div2,
        hclkc_div: HclkcDiv::Div1,
        de_dram_gating: false,
    }
}

#[test]
fn pll_frequencies() {
    assert_eq!(PllCpu { n: 30, k: 1, m: 1, p: PllCpuP::Div1 }.freq_hz(), 720_000_000);
    assert_eq!(PllPeriph { n: 25, k: 1 }.freq_hz(), 600_000_000);
    assert_eq!(PllCpu::freq_408mhz().freq_hz(), 408_000_000);
    assert_eq!(PllCpu::freq_600mhz().freq_hz(), 600_000_000);
    assert_eq!(PllCpu { n: 32, k: 4, m: 3, p: PllCpuP::Div4 }.freq_hz(), 256_000_000);
    assert_eq!(PllCpu { n: 20, k: 2, m: 1, p: PllCpuP::Div2 }.freq_hz(), 480_000_000);
}

#[test]
fn video_pll_frequencies() {
    assert_eq!(PllVideo::freq_198mhz().freq_hz(), 198_000_000);
    assert_eq!(PllVideo::freq_297mhz().freq_hz(), 297_000_000);
    assert_eq!(PllVideo::freq_270mhz().freq_hz(), 270_000_000);
    assert_eq!(PllVideo { mode: PllVideoMode::Integer { n: 7, m: 3 } }.freq_hz(), 56_000_000);
}

#[test]
fn reference_configuration_clocks() {
    let c = update_clocks(&reference_config());
    assert_eq!(c, Clocks { sysclk: 720_000_000, hclk: 200_000_000, pclk: 100_000_000 });
}

#[test]
fn init_publishes_clocks_and_programs_registers() {
    let mut bus = Bus::new(MemoryBus::new());
    let c = init(&mut bus, &reference_config());
    assert_eq!(c, Clocks { sysclk: 720_000_000, hclk: 200_000_000, pclk: 100_000_000 });
    // CPU PLL: enabled, N-1 = 29.
    assert_eq!(bus.hw().peek(CCU_PLL_CPU_CTRL), 0x8000_0000 | (29 << 8));
    // Peripheral PLL: enabled, N-1 = 24.
    assert_eq!(bus.hw().peek(CCU_PLL_PERIPH_CTRL), 0x8000_0000 | (24 << 8));
    // Video PLL left alone.
    assert_eq!(bus.hw().peek(CCU_PLL_VIDEO_CTRL), 0);
    // AHB from the peripheral PLL, pre-divider /3, APB /2.
    assert_eq!(bus.hw().peek(CCU_AHB_APB_HCLKC_CFG), (3 << 12) | (1 << 8) | (2 << 6));
    // CPU finally on its PLL.
    assert_eq!(bus.hw().peek(CCU_CPU_CLK_SRC), 2 << 16);
}

#[test]
fn default_config_clocks() {
    let c = update_clocks(&Config::default());
    assert_eq!(c, Clocks { sysclk: 720_000_000, hclk: 200_000_000, pclk: 100_000_000 });
    assert_eq!(Clocks::default(), Clocks { sysclk: 24_000_000, hclk: 24_000_000, pclk: 24_000_000 });
}

#[test]
fn clocks_from_oscillators() {
    let mut cfg = reference_config();
    cfg.cpu_src = CpuClkSrc::Osc24M;
    cfg.ahb_src = AhbClkSrc::CpuClk;
    cfg.ahb_div = AhbDiv::Div2;
    cfg.apb_div = ApbDiv::Div4;
    assert_eq!(update_clocks(&cfg), Clocks { sysclk: 24_000_000, hclk: 12_000_000, pclk: 3_000_000 });
    cfg.cpu_src = CpuClkSrc::Losc;
    cfg.ahb_src = AhbClkSrc::Losc;
    cfg.ahb_div = AhbDiv::Div8;
    cfg.apb_div = ApbDiv::Div8;
    assert_eq!(update_clocks(&cfg), Clocks { sysclk: 32_768, hclk: 4_096, pclk: 512 });
    cfg.cpu_src = CpuClkSrc::PllCpu;
    cfg.pll_cpu = None;
    cfg.ahb_src = AhbClkSrc::PllPeriph;
    cfg.pll_periph = None;
    cfg.ahb_pre_div = AhbPreDiv::Div4;
    cfg.ahb_div = AhbDiv::Div1;
    cfg.apb_div = ApbDiv::Div2;
    assert_eq!(update_clocks(&cfg), Clocks { sysclk: 24_000_000, hclk: 6_000_000, pclk: 3_000_000 });
}

#[test]
fn pll_control_words() {
    assert_eq!(PllVideo::freq_198mhz().ctrl_word(), 0x8000_0000 | 0x0100_0000 | (65 << 8) | 7);
    assert_eq!(PllVideo::freq_297mhz().ctrl_word(), 0x8000_0000 | 0x0200_0000);
    assert_eq!(PllVideo::freq_270mhz().ctrl_word(), 0x8000_0000);
    assert_eq!(PllPeriph { n: 25, k: 2 }.ctrl_word(), 0x8000_0000 | (24 << 8) | (1 << 4));
    let cpu = PllCpu { n: 17, k: 2, m: 3, p: PllCpuP::Div4 };
    assert_eq!(cpu.ctrl_word(0xffff_ffff), 0xffff_ffff & !0x0003_1f33 | 0x8000_0000 | (2 << 16) | (16 << 8) | (1 << 4) | 2);
}
