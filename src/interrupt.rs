//! Interrupt sources of the interrupt controller and their line numbers.
use vstd::prelude::*;

verus! {

/// Interrupt sources.
#[derive(Debug, Copy, Clone, Eq, PartialEq, Structural)]
#[allow(non_camel_case_types)]
pub enum Interrupt {
    NMI,
    UART0,
    UART1,
    UART2,
    OWA,
    CIR,
    TWI0,
    TWI1,
    TWI2,
    SPI0,
    SPI1,
    TIMER0,
    TIMER1,
    TIMER2,
    WATCHDOG,
    RSB,
    DMA,
    TOUCH_PANEL,
    AUDIO_CODEC,
    KEYADC,
    SDC0,
    SDC1,
    USB_OTG,
    TVD,
    TVE,
    TCON,
    DEFE,
    DEBE,
    CSI,
    DE_INTERLACER,
    VE,
    DAUDIO,
    PIOD,
    PIOE,
    PIOF,
}

impl Interrupt {
    /// Line number of the source in the interrupt controller.
    pub open spec fn number_spec(self) -> u8 {
        match self {
            Interrupt::NMI => 0,
            Interrupt::UART0 => 1,
            Interrupt::UART1 => 2,
            Interrupt::UART2 => 3,
            Interrupt::OWA => 5,
            Interrupt::CIR => 6,
            Interrupt::TWI0 => 7,
            Interrupt::TWI1 => 8,
            Interrupt::TWI2 => 9,
            Interrupt::SPI0 => 10,
            Interrupt::SPI1 => 11,
            Interrupt::TIMER0 => 13,
            Interrupt::TIMER1 => 14,
            Interrupt::TIMER2 => 15,
            Interrupt::WATCHDOG => 16,
            Interrupt::RSB => 17,
            Interrupt::DMA => 18,
            Interrupt::TOUCH_PANEL => 20,
            Interrupt::AUDIO_CODEC => 21,
            Interrupt::KEYADC => 22,
            Interrupt::SDC0 => 23,
            Interrupt::SDC1 => 24,
            Interrupt::USB_OTG => 26,
            Interrupt::TVD => 27,
            Interrupt::TVE => 28,
            Interrupt::TCON => 29,
            Interrupt::DEFE => 30,
            Interrupt::DEBE => 31,
            Interrupt::CSI => 32,
            Interrupt::DE_INTERLACER => 33,
            Interrupt::VE => 34,
            Interrupt::DAUDIO => 35,
            Interrupt::PIOD => 38,
            Interrupt::PIOE => 39,
            Interrupt::PIOF => 40,
        }
    }

    /// Line number of the source in the interrupt controller.
    pub fn number(self) -> (r: u8)
        ensures
            r == self.number_spec(),
            r < 64,
    {
        match self {
            Interrupt::NMI => 0,
            Interrupt::UART0 => 1,
            Interrupt::UART1 => 2,
            Interrupt::UART2 => 3,
            Interrupt::OWA => 5,
            Interrupt::CIR => 6,
            Interrupt::TWI0 => 7,
            Interrupt::TWI1 => 8,
            Interrupt::TWI2 => 9,
            Interrupt::SPI0 => 10,
            Interrupt::SPI1 => 11,
            Interrupt::TIMER0 => 13,
            Interrupt::TIMER1 => 14,
            Interrupt::TIMER2 => 15,
            Interrupt::WATCHDOG => 16,
            Interrupt::RSB => 17,
            Interrupt::DMA => 18,
            Interrupt::TOUCH_PANEL => 20,
            Interrupt::AUDIO_CODEC => 21,
            Interrupt::KEYADC => 22,
            Interrupt::SDC0 => 23,
            Interrupt::SDC1 => 24,
            Interrupt::USB_OTG => 26,
            Interrupt::TVD => 27,
            Interrupt::TVE => 28,
            Interrupt::TCON => 29,
            Interrupt::DEFE => 30,
            Interrupt::DEBE => 31,
            Interrupt::CSI => 32,
            Interrupt::DE_INTERLACER => 33,
            Interrupt::VE => 34,
            Interrupt::DAUDIO => 35,
            Interrupt::PIOD => 38,
            Interrupt::PIOE => 39,
            Interrupt::PIOF => 40,
        }
    }
}

} // verus!
