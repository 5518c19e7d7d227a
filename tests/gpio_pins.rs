use f1c100s_hal::bus::{Bus, MemoryBus};
use f1c100s_hal::gpio::{AnyPin, DriveStrength, Flex, Input, Level, Output, Pin, PinMode, Pull};
use f1c100s_hal::interrupt::Interrupt;

// PE5: port 4, pin 5.
const PE5: u8 = (4 << 5) | 5;
const PE_BASE: u32 = 0x01c2_0800 + 4 * 0x24;

#[test]
fn pin_numbers() {
    let p = AnyPin::steal(PE5);
    assert_eq!(p.pin(), 5);
    assert_eq!(p.port(), 4);
    assert_eq!(p.port_base(), PE_BASE);
    assert_eq!(p.degrade().pin_port(), PE5);
}

#[test]
fn output_drives_its_bit_only() {
    let mut bus = Bus::new(MemoryBus::new());
    bus.write32(PE_BASE + 0x10, 0x0000_0f00);
    let mut out = Output::new(AnyPin::steal(PE5), Level::High, DriveStrength::Level3, &mut bus);
    assert_eq!(bus.hw().peek(PE_BASE + 0x10), 0x0000_0f20);
    assert!(out.is_set_high(&mut bus));
    out.set_low(&mut bus);
    assert_eq!(bus.hw().peek(PE_BASE + 0x10), 0x0000_0f00);
    assert!(out.is_set_low(&mut bus));
    out.toggle(&mut bus);
    assert_eq!(out.get_output_level(&mut bus), Level::High);
    out.set_level(&mut bus, Level::Low);
    assert_eq!(out.get_output_level(&mut bus), Level::Low);
    // CFG0, pin 5: output function at bits 20..23.
    assert_eq!(bus.hw().peek(PE_BASE), 1 << 20);
    // DRV0, pin 5: level 3 at bits 10..11.
    assert_eq!(bus.hw().peek(PE_BASE + 0x14), 3 << 10);
}

#[test]
fn input_configures_pull_and_reads() {
    let mut bus = Bus::new(MemoryBus::new());
    bus.write32(PE_BASE, 0xffff_ffff);
    let input = Input::new(AnyPin::steal(PE5), Pull::Up, &mut bus);
    assert_eq!(bus.hw().peek(PE_BASE), 0xff8f_ffff);
    assert_eq!(bus.hw().peek(PE_BASE + 0x1c), 1 << 10);
    assert!(input.is_low(&mut bus));
    bus.write32(PE_BASE + 0x10, 1 << 5);
    assert!(input.is_high(&mut bus));
    assert_eq!(input.get_level(&mut bus), Level::High);
}

#[test]
fn flex_switches_direction() {
    let mut bus = Bus::new(MemoryBus::new());
    // PD18: port 3, pin 18, in CFG2 and PUL1/DRV1.
    let base = 0x01c2_0800 + 3 * 0x24;
    let mut pin = Flex::new(AnyPin::steal((3 << 5) | 18));
    pin.set_as_output(&mut bus, DriveStrength::Level2);
    assert_eq!(bus.hw().peek(base + 0x08), 1 << 8);
    assert_eq!(bus.hw().peek(base + 0x18), 2 << 4);
    pin.set_high(&mut bus);
    assert!(pin.is_high(&mut bus));
    pin.toggle(&mut bus);
    assert!(pin.is_low(&mut bus));
    pin.set_as_input(&mut bus, Pull::Down);
    assert_eq!(bus.hw().peek(base + 0x08), 0);
    assert_eq!(bus.hw().peek(base + 0x20), 2 << 4);
    assert_eq!(pin.get_level(&mut bus), Level::Low);
}

#[test]
fn pin_mode_field() {
    let mut bus = Bus::new(MemoryBus::new());
    let p = AnyPin::steal((1 << 5) | 3);
    p.set_mode(&mut bus, PinMode::Disabled);
    assert_eq!(bus.hw().peek(0x01c2_0824), 7 << 12);
}

#[test]
fn level_conversions() {
    assert_eq!(Level::from(true), Level::High);
    assert_eq!(Level::from(false), Level::Low);
    assert!(bool::from(Level::High));
    assert!(!bool::from(Level::Low));
    assert_eq!(Level::default(), Level::Low);
    assert_eq!(Pull::default(), Pull::NoPull);
    assert_eq!(DriveStrength::default(), DriveStrength::Level1);
}

#[test]
fn interrupt_numbers() {
    assert_eq!(Interrupt::NMI.number(), 0);
    assert_eq!(Interrupt::OWA.number(), 5);
    assert_eq!(Interrupt::TIMER0.number(), 13);
    assert_eq!(Interrupt::PIOF.number(), 40);
}
