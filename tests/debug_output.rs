use f1c100s_hal::bus::{Bus, MemoryBus};
use f1c100s_hal::debug::{debug_divisor, DebugPrint, UART0_DLH, UART0_DLL, UART0_FCR, UART0_LCR};
use f1c100s_hal::rcc::Clocks;

#[test]
fn debug_divisor_rounds_to_nearest() {
    // 100 MHz / (16 * 115200) = 54.25.
    assert_eq!(debug_divisor(100_000_000), 54);
    // 6 MHz / 1843200 = 3.26.
    assert_eq!(debug_divisor(6_000_000), 3);
    // 24 MHz / 1843200 = 13.02.
    assert_eq!(debug_divisor(24_000_000), 13);
    // 1.4 MHz rounds up to 1.
    assert_eq!(debug_divisor(1_400_000), 1);
}

#[test]
fn line_feeds_get_carriage_returns() {
    assert_eq!(DebugPrint::line_bytes(b"ok\n"), b"ok\r\n".to_vec());
    assert_eq!(DebugPrint::line_bytes(b"\n\na"), b"\r\n\r\na".to_vec());
    assert_eq!(DebugPrint::line_bytes(b""), Vec::<u8>::new());
    assert_eq!(DebugPrint::line_bytes(b"\r"), b"\r".to_vec());
}

#[test]
fn debug_uart_setup() {
    let mut bus = Bus::new(MemoryBus::new());
    let clocks = Clocks { sysclk: 720_000_000, hclk: 200_000_000, pclk: 100_000_000 };
    DebugPrint::enable(&mut bus, &clocks);
    let hw = bus.hw();
    assert_eq!(hw.peek(UART0_DLL), 54);
    assert_eq!(hw.peek(UART0_DLH), 0);
    assert_eq!(hw.peek(UART0_LCR), 0x03);
    assert_eq!(hw.peek(UART0_FCR), 0xf7);
    // PE0 and PE1 in function 5.
    assert_eq!(hw.peek(0x01c2_0890), 0x55);
    assert_eq!(hw.peek(0x01c2_0068), 1 << 20);
    assert_eq!(hw.peek(0x01c2_02d0), 1 << 20);
}
