use f1c100s_hal::spi::{clock_divider, ClockDivider};
use f1c100s_hal::usart::{
    baud_divisor, check_rx_flags, line_control, Config, ConfigError, DataBits, Error, Parity, StopBits,
};

#[test]
fn baud_divisors() {
    // 100 MHz APB at 115200 baud: 100e6 / (16 * 115200) = 54.
    assert_eq!(baud_divisor(100_000_000, 115_200), Ok(54));
    assert_eq!(baud_divisor(6_000_000, 115_200), Ok(3));
    assert_eq!(baud_divisor(1_000_000, 115_200), Err(ConfigError::BaudrateTooHigh));
    assert_eq!(baud_divisor(100_000_000, 1), Err(ConfigError::BaudrateTooLow));
    assert_eq!(baud_divisor(16 * 0xffff, 1), Ok(0xffff));
}

#[test]
fn line_control_words() {
    assert_eq!(line_control(&Config::default()), 0x3);
    let c = Config { baudrate: 9600, data_bits: DataBits::DataBits7, stop_bits: StopBits::Stop2, parity: Parity::Even };
    assert_eq!(line_control(&c), 0x2 | 0x4 | 0x18);
    let c = Config { baudrate: 9600, data_bits: DataBits::DataBits5, stop_bits: StopBits::Stop1p5, parity: Parity::Odd };
    assert_eq!(line_control(&c), 0x4 | 0x8);
    assert_eq!(Config::with_baudrate(9600).baudrate, 9600);
    assert_eq!(Config::with_baudrate(9600).parity, Parity::NoParity);
}

#[test]
fn rx_status_decoding() {
    assert_eq!(check_rx_flags(0x0), Ok(false));
    assert_eq!(check_rx_flags(0x1), Ok(true));
    assert_eq!(check_rx_flags(0x3), Err(Error::Overrun));
    assert_eq!(check_rx_flags(0x1c), Err(Error::Parity));
    assert_eq!(check_rx_flags(0x18), Err(Error::Framing));
    assert_eq!(check_rx_flags(0x11), Err(Error::Break));
}

#[test]
fn spi_dividers() {
    assert_eq!(clock_divider(200_000_000, 0), None);
    assert_eq!(clock_divider(200_000_000, 100_000_000), Some(ClockDivider::Linear(0)));
    // 200 MHz / (2 * 10 MHz) - 1 = 9.
    assert_eq!(clock_divider(200_000_000, 10_000_000), Some(ClockDivider::Linear(9)));
    // 1 MHz would need 99.
    assert_eq!(clock_divider(200_000_000, 1_000_000), Some(ClockDivider::Linear(99)));
    // 100 kHz needs 999, too large: 200 MHz / 2^(n+1) <= 100 kHz first at n = 10.
    assert_eq!(clock_divider(200_000_000, 100_000), Some(ClockDivider::Power(10)));
    assert_eq!(clock_divider(200_000_000, 1), Some(ClockDivider::Power(15)));
}
