//! UART line settings: the baud-rate divisor, the line control word and the
//! decoding of the line status register.
use vstd::prelude::*;

verus! {

/// Data bits per character.
#[derive(Clone, Copy, PartialEq, Eq, Debug, Structural)]
pub enum DataBits {
    DataBits5,
    DataBits6,
    DataBits7,
    DataBits8,
}

/// Parity.
#[derive(Clone, Copy, PartialEq, Eq, Debug, Structural)]
pub enum Parity {
    NoParity,
    Odd,
    Even,
}

/// Stop bits.
#[derive(Clone, Copy, PartialEq, Eq, Debug, Structural)]
pub enum StopBits {
    Stop1,
    /// Only meaningful with five data bits.
    Stop1p5,
    Stop2,
}

/// Line settings.
#[derive(Clone, Copy, PartialEq, Eq, Debug, Structural)]
pub struct Config {
    pub baudrate: u32,
    pub data_bits: DataBits,
    pub stop_bits: StopBits,
    pub parity: Parity,
}

impl Default for Config {
    /// 115200 baud, eight data bits, one stop bit, no parity.
    fn default() -> (r: Config)
        ensures
            r == (Config {
                baudrate: 115200,
                data_bits: DataBits::DataBits8,
                stop_bits: StopBits::Stop1,
                parity: Parity::NoParity,
            }),
    {
        Config {
            baudrate: 115200,
            data_bits: DataBits::DataBits8,
            stop_bits: StopBits::Stop1,
            parity: Parity::NoParity,
        }
    }
}

impl Config {
    /// The default settings at another baud rate.
    pub fn with_baudrate(baudrate: u32) -> (r: Config)
        ensures
            r == (Config {
                baudrate,
                data_bits: DataBits::DataBits8,
                stop_bits: StopBits::Stop1,
                parity: Parity::NoParity,
            }),
    {
        Config { baudrate, ..Config::default() }
    }
}

/// Receive error.
#[derive(Debug, Eq, PartialEq, Copy, Clone, Structural)]
pub enum Error {
    Framing,
    Parity,
    Overrun,
    Break,
}

/// Line settings the UART cannot produce from its clock.
#[derive(Clone, Copy, PartialEq, Eq, Debug, Structural)]
pub enum ConfigError {
    BaudrateTooLow,
    BaudrateTooHigh,
}

/// Divisor for `baudrate` from a clock of `apb_clk` Hz: baud = clock / (16 * divisor).
pub open spec fn divisor_spec(apb_clk: u32, baudrate: u32) -> int {
    apb_clk as int / (16 * baudrate as int)
}

/// The 16-bit divisor that gives `baudrate` from a clock of `apb_clk` Hz;
/// an error when it would be zero or would not fit in 16 bits.
pub fn baud_divisor(apb_clk: u32, baudrate: u32) -> (r: Result<u32, ConfigError>)
    requires
        0 < baudrate <= 0x0fff_ffff,
    ensures
        divisor_spec(apb_clk, baudrate) == 0 <==> r == Err::<u32, ConfigError>(ConfigError::BaudrateTooHigh),
        divisor_spec(apb_clk, baudrate) > 0xffff <==> r == Err::<u32, ConfigError>(ConfigError::BaudrateTooLow),
        r matches Ok(d) ==> d == divisor_spec(apb_clk, baudrate) && 1 <= d <= 0xffff,
{
    let divisor = apb_clk / (16 * baudrate);
    if divisor == 0 {
        return Err(ConfigError::BaudrateTooHigh);
    }
    if divisor > 0xffff {
        return Err(ConfigError::BaudrateTooLow);
    }
    Ok(divisor)
}

impl DataBits {
    pub open spec fn bits_spec(self) -> u32 {
        match self {
            DataBits::DataBits5 => 0,
            DataBits::DataBits6 => 1,
            DataBits::DataBits7 => 2,
            DataBits::DataBits8 => 3,
        }
    }

    pub fn bits(self) -> (r: u32)
        ensures
            r == self.bits_spec(),
    {
        match self {
            DataBits::DataBits5 => 0,
            DataBits::DataBits6 => 1,
            DataBits::DataBits7 => 2,
            DataBits::DataBits8 => 3,
        }
    }
}

/// Line control word: data length in bits 0..1, the extra stop bit in bit 2,
/// parity enable in bit 3 and even parity in bits 4..5.
pub open spec fn line_control_spec(config: Config) -> u32 {
    config.data_bits.bits_spec() | (if config.stop_bits != StopBits::Stop1 {
        0x4u32
    } else {
        0
    }) | match config.parity {
        Parity::NoParity => 0u32,
        Parity::Odd => 0x8u32,
        Parity::Even => 0x18u32,
    }
}

pub fn line_control(config: &Config) -> (r: u32)
    ensures
        r == line_control_spec(*config),
{
    let stop: u32 = if config.stop_bits != StopBits::Stop1 {
        0x4
    } else {
        0
    };
    let parity: u32 = match config.parity {
        Parity::NoParity => 0,
        Parity::Odd => 0x8,
        Parity::Even => 0x18,
    };
    config.data_bits.bits() | stop | parity
}

/// Decodes the line status register: the first of overrun (bit 1), parity
/// (bit 2), framing (bit 3) and break (bit 4) that is set is an error;
/// otherwise whether a byte is ready (bit 0).
pub open spec fn rx_status_spec(lsr: u32) -> Result<bool, Error> {
    if lsr & 0x2 != 0 {
        Err(Error::Overrun)
    } else if lsr & 0x4 != 0 {
        Err(Error::Parity)
    } else if lsr & 0x8 != 0 {
        Err(Error::Framing)
    } else if lsr & 0x10 != 0 {
        Err(Error::Break)
    } else {
        Ok(lsr & 0x1 != 0)
    }
}

pub fn check_rx_flags(lsr: u32) -> (r: Result<bool, Error>)
    ensures
        r == rx_status_spec(lsr),
{
    if lsr & 0x2 != 0 {
        return Err(Error::Overrun);
    }
    if lsr & 0x4 != 0 {
        return Err(Error::Parity);
    }
    if lsr & 0x8 != 0 {
        return Err(Error::Framing);
    }
    if lsr & 0x10 != 0 {
        return Err(Error::Break);
    }
    Ok(lsr & 0x1 != 0)
}

} // verus!
