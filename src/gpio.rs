//! GPIO: pin configuration and data access through the pin controller's
//! per-port register blocks.
use vstd::prelude::*;

use crate::bus::{Bus, extends, BusOp, RegisterBus};

verus! {

/// Pin controller base address.
pub const PIO_BASE: u32 = 0x01c2_0800;
/// Size of one port's register block.
pub const PORT_STRIDE: u32 = 0x24;
/// Offset of a port's data register.
pub const DATA_OFFSET: u32 = 0x10;
/// Offset of a port's first drive-strength register.
pub const DRV_OFFSET: u32 = 0x14;
/// Offset of a port's first pull register.
pub const PULL_OFFSET: u32 = 0x1c;

/// Pin function, three bits in a configuration register.
#[derive(Debug, Eq, PartialEq, Copy, Clone, Structural)]
pub enum PinMode {
    Input,
    Output,
    Func2,
    Func3,
    Func4,
    Func5,
    Func6,
    Disabled,
}

impl PinMode {
    pub open spec fn bits_spec(self) -> u32 {
        match self {
            PinMode::Input => 0,
            PinMode::Output => 1,
            PinMode::Func2 => 2,
            PinMode::Func3 => 3,
            PinMode::Func4 => 4,
            PinMode::Func5 => 5,
            PinMode::Func6 => 6,
            PinMode::Disabled => 7,
        }
    }

    pub fn bits(self) -> (r: u32)
        ensures
            r == self.bits_spec(),
            r < 8,
    {
        match self {
            PinMode::Input => 0,
            PinMode::Output => 1,
            PinMode::Func2 => 2,
            PinMode::Func3 => 3,
            PinMode::Func4 => 4,
            PinMode::Func5 => 5,
            PinMode::Func6 => 6,
            PinMode::Disabled => 7,
        }
    }
}

/// Pull resistor, two bits in a pull register.
#[derive(Debug, Eq, PartialEq, Copy, Clone, Structural)]
pub enum Pull {
    NoPull,
    Up,
    Down,
}

impl Pull {
    pub open spec fn bits_spec(self) -> u32 {
        match self {
            Pull::NoPull => 0,
            Pull::Up => 1,
            Pull::Down => 2,
        }
    }

    pub fn bits(self) -> (r: u32)
        ensures
            r == self.bits_spec(),
            r < 4,
    {
        match self {
            Pull::NoPull => 0,
            Pull::Up => 1,
            Pull::Down => 2,
        }
    }
}

impl Default for Pull {
    fn default() -> (r: Pull)
        ensures
            r == Pull::NoPull,
    {
        Pull::NoPull
    }
}

/// Drive strength, two bits in a drive register.
#[derive(Debug, Eq, PartialEq, Copy, Clone, Structural)]
pub enum DriveStrength {
    Level0,
    Level1,
    Level2,
    Level3,
}

impl DriveStrength {
    pub open spec fn bits_spec(self) -> u32 {
        match self {
            DriveStrength::Level0 => 0,
            DriveStrength::Level1 => 1,
            DriveStrength::Level2 => 2,
            DriveStrength::Level3 => 3,
        }
    }

    pub fn bits(self) -> (r: u32)
        ensures
            r == self.bits_spec(),
            r < 4,
    {
        match self {
            DriveStrength::Level0 => 0,
            DriveStrength::Level1 => 1,
            DriveStrength::Level2 => 2,
            DriveStrength::Level3 => 3,
        }
    }
}

impl Default for DriveStrength {
    fn default() -> (r: DriveStrength)
        ensures
            r == DriveStrength::Level1,
    {
        DriveStrength::Level1
    }
}

/// Logic level.
#[derive(Debug, Eq, PartialEq, Copy, Clone, Structural)]
pub enum Level {
    Low,
    High,
}

pub open spec fn level_of(high: bool) -> Level {
    if high {
        Level::High
    } else {
        Level::Low
    }
}

impl From<bool> for Level {
    fn from(val: bool) -> (r: Level) {
        if val {
            Level::High
        } else {
            Level::Low
        }
    }
}

impl vstd::std_specs::convert::FromSpecImpl<bool> for Level {
    open spec fn obeys_from_spec() -> bool {
        true
    }

    open spec fn from_spec(v: bool) -> Level {
        level_of(v)
    }
}

impl From<Level> for bool {
    fn from(level: Level) -> (r: bool) {
        level == Level::High
    }
}

impl vstd::std_specs::convert::FromSpecImpl<Level> for bool {
    open spec fn obeys_from_spec() -> bool {
        true
    }

    open spec fn from_spec(v: Level) -> bool {
        v == Level::High
    }
}

impl Default for Level {
    fn default() -> (r: Level)
        ensures
            r == Level::Low,
    {
        Level::Low
    }
}

/// `t1` is `t0` followed by a read of `addr` and a write back of the value
/// read with the bits of `clear` cleared and those of `set` set.
pub open spec fn read_modify_write(t0: Seq<BusOp>, t1: Seq<BusOp>, addr: u32, clear: u32, set: u32) -> bool {
    &&& t1.len() == t0.len() + 2
    &&& extends(t0, t1)
    &&& t1[t0.len() as int].is_read_of(addr)
    &&& t1[t0.len() as int + 1] == (BusOp::Write {
        addr,
        value: (t1[t0.len() as int].value() & !clear) | set,
    })
}

fn modify<H: RegisterBus>(bus: &mut Bus<H>, addr: u32, clear: u32, set: u32)
    ensures
        read_modify_write(old(bus).trace(), final(bus).trace(), addr, clear, set),
{
    let v = bus.read32(addr);
    bus.write32(addr, (v & !clear) | set);
}

/// Any GPIO pin: port number in bits 5..7, pin number in bits 0..4.
#[derive(Debug, Eq, PartialEq, Copy, Clone, Structural)]
pub struct AnyPin {
    pin_port: u8,
}

/// A GPIO pin.
pub trait Pin: Sized {
    /// Port and pin numbers packed as `port << 5 | pin`.
    fn pin_port(&self) -> u8;

    /// Pin number within its port.
    fn pin(&self) -> (r: u8)
        ensures
            r < 32,
    ;

    /// Port number.
    fn port(&self) -> (r: u8)
        ensures
            r < 8,
    ;

    /// Forgets the pin's static identity.
    fn degrade(self) -> AnyPin;
}

impl AnyPin {
    pub open spec fn pin_spec(self) -> u32 {
        (self.packed() % 32) as u32
    }

    pub open spec fn port_spec(self) -> u32 {
        (self.packed() / 32) as u32
    }

    pub open spec fn port_base_spec(self) -> u32 {
        (PIO_BASE + self.port_spec() * PORT_STRIDE) as u32
    }

    pub closed spec fn packed(self) -> u8 {
        self.pin_port
    }

    /// The pin with packed number `pin_port`.
    pub fn steal(pin_port: u8) -> (r: AnyPin)
        ensures
            r.packed() == pin_port,
    {
        AnyPin { pin_port }
    }

    fn pin_index(&self) -> (r: u32)
        ensures
            r == self.pin_spec(),
            r < 32,
    {
        let pp = self.pin_port;
        let p = pp & 0x1f;
        assert(p == pp % 32) by (bit_vector)
            requires
                p == pp & 0x1f,
        ;
        p as u32
    }

    fn port_index(&self) -> (r: u32)
        ensures
            r == self.port_spec(),
            r < 8,
    {
        let pp = self.pin_port;
        let p = pp >> 5;
        assert(p == pp / 32) by (bit_vector)
            requires
                p == pp >> 5,
        ;
        p as u32
    }

    /// Base address of the pin's port block.
    pub fn port_base(&self) -> (r: u32)
        ensures
            r == self.port_base_spec(),
    {
        PIO_BASE + self.port_index() * PORT_STRIDE
    }

    pub open spec fn data_addr(self) -> u32 {
        (self.port_base_spec() + DATA_OFFSET) as u32
    }

    pub open spec fn cfg_addr(self) -> u32 {
        (self.port_base_spec() + (self.pin_spec() / 8) * 4) as u32
    }

    pub open spec fn cfg_shift(self) -> u32 {
        ((self.pin_spec() % 8) * 4) as u32
    }

    pub open spec fn pull_addr(self) -> u32 {
        (self.port_base_spec() + PULL_OFFSET + (self.pin_spec() / 16) * 4) as u32
    }

    pub open spec fn drv_addr(self) -> u32 {
        (self.port_base_spec() + DRV_OFFSET + (self.pin_spec() / 16) * 4) as u32
    }

    pub open spec fn field_shift(self) -> u32 {
        ((self.pin_spec() % 16) * 2) as u32
    }

    /// Sets the pin function: three bits at `4 * (pin % 8)` of configuration
    /// register `pin / 8`.
    pub fn set_mode<H: RegisterBus>(&self, bus: &mut Bus<H>, mode: PinMode)
        ensures
            read_modify_write(
                old(bus).trace(),
                final(bus).trace(),
                self.cfg_addr(),
                0x7u32 << self.cfg_shift(),
                mode.bits_spec() << self.cfg_shift(),
            ),
    {
        let pin = self.pin_index();
        let cfg_offset = (pin % 8) * 4;
        let cfg_addr = self.port_base() + (pin / 8) * 4;
        modify(bus, cfg_addr, 0x7 << cfg_offset, mode.bits() << cfg_offset);
    }

    /// Sets the pull resistor: two bits at `2 * (pin % 16)` of pull register
    /// `pin / 16`.
    pub fn set_pull<H: RegisterBus>(&self, bus: &mut Bus<H>, pull: Pull)
        ensures
            read_modify_write(
                old(bus).trace(),
                final(bus).trace(),
                self.pull_addr(),
                0x3u32 << self.field_shift(),
                pull.bits_spec() << self.field_shift(),
            ),
    {
        let pin = self.pin_index();
        let offset = (pin % 16) * 2;
        let addr = self.port_base() + PULL_OFFSET + (pin / 16) * 4;
        modify(bus, addr, 0x3 << offset, pull.bits() << offset);
    }

    /// Sets the drive strength: two bits at `2 * (pin % 16)` of drive register
    /// `pin / 16`.
    pub fn set_drive<H: RegisterBus>(&self, bus: &mut Bus<H>, drive: DriveStrength)
        ensures
            read_modify_write(
                old(bus).trace(),
                final(bus).trace(),
                self.drv_addr(),
                0x3u32 << self.field_shift(),
                drive.bits_spec() << self.field_shift(),
            ),
    {
        let pin = self.pin_index();
        let offset = (pin % 16) * 2;
        let addr = self.port_base() + DRV_OFFSET + (pin / 16) * 4;
        modify(bus, addr, 0x3 << offset, drive.bits() << offset);
    }

    /// Reads the pin's bit of the port data register.
    pub fn read_data<H: RegisterBus>(&self, bus: &mut Bus<H>) -> (r: bool)
        ensures
            reads_pin(old(bus).trace(), final(bus).trace(), *self, r),
    {
        let pin = self.pin_index();
        let v = bus.read32(self.port_base() + DATA_OFFSET);
        (v >> pin) & 1 != 0
    }

    /// Sets or clears the pin's bit of the port data register, keeping the
    /// other pins of the port.
    pub fn write_data<H: RegisterBus>(&self, bus: &mut Bus<H>, high: bool)
        ensures
            writes_pin(old(bus).trace(), final(bus).trace(), *self, high),
    {
        let pin = self.pin_index();
        let addr = self.port_base() + DATA_OFFSET;
        let v = bus.read32(addr);
        let new_val = if high {
            v | (1u32 << pin)
        } else {
            v & !(1u32 << pin)
        };
        bus.write32(addr, new_val);
    }
}

/// `t1` is `t0` followed by one read of the pin's data register, whose bit for
/// the pin is `high`.
pub open spec fn reads_pin(t0: Seq<BusOp>, t1: Seq<BusOp>, pin: AnyPin, high: bool) -> bool {
    &&& t1.len() == t0.len() + 1
    &&& extends(t0, t1)
    &&& t1.last().is_read_of(pin.data_addr())
    &&& high == ((t1.last().value() >> pin.pin_spec()) & 1 != 0)
}

/// Whether the data word read by `op` has the pin's bit set.
pub open spec fn pin_high(op: BusOp, pin: AnyPin) -> bool {
    (op.value() >> pin.pin_spec()) & 1 != 0
}

/// The port data word `v` with the pin's bit set to `high`.
pub open spec fn with_pin(v: u32, pin: u32, high: bool) -> u32 {
    if high {
        v | (1u32 << pin)
    } else {
        v & !(1u32 << pin)
    }
}

/// `t1` is `t0` followed by a read of the pin's data register and a write of
/// the same word with only the pin's bit set to `high`.
pub open spec fn writes_pin(t0: Seq<BusOp>, t1: Seq<BusOp>, pin: AnyPin, high: bool) -> bool {
    &&& t1.len() == t0.len() + 2
    &&& extends(t0, t1)
    &&& t1[t0.len() as int].is_read_of(pin.data_addr())
    &&& t1.last() == (BusOp::Write {
        addr: pin.data_addr(),
        value: with_pin(t1[t0.len() as int].value(), pin.pin_spec(), high),
    })
}

impl Pin for AnyPin {
    fn pin_port(&self) -> u8 {
        self.pin_port
    }

    fn pin(&self) -> (r: u8) {
        self.pin_index() as u8
    }

    fn port(&self) -> (r: u8) {
        self.port_index() as u8
    }

    fn degrade(self) -> AnyPin {
        self
    }
}


/// A pin that can be switched between input and output.
pub struct Flex {
    pin: AnyPin,
}

impl Flex {
    pub closed spec fn any_pin(self) -> AnyPin {
        self.pin
    }

    pub fn new(pin: AnyPin) -> (r: Flex)
        ensures
            r.any_pin() == pin,
    {
        Flex { pin }
    }

    /// Makes the pin an input with the given pull resistor.
    pub fn set_as_input<H: RegisterBus>(&mut self, bus: &mut Bus<H>, pull: Pull)
        ensures
            final(self).any_pin() == old(self).any_pin(),
            read_modify_write(old(bus).trace(), final(bus).trace().take(old(bus).trace().len() as int + 2), old(self).any_pin().cfg_addr(),
                0x7u32 << old(self).any_pin().cfg_shift(), PinMode::Input.bits_spec() << old(self).any_pin().cfg_shift()),
            read_modify_write(final(bus).trace().take(old(bus).trace().len() as int + 2), final(bus).trace(), old(self).any_pin().pull_addr(),
                0x3u32 << old(self).any_pin().field_shift(), pull.bits_spec() << old(self).any_pin().field_shift()),
    {
        let ghost t0 = bus.trace();
        self.pin.set_mode(bus, PinMode::Input);
        let ghost t1 = bus.trace();
        self.pin.set_pull(bus, pull);
        assert(bus.trace().take(t0.len() as int + 2) =~= t1);
    }

    /// Makes the pin an output with the given drive strength.
    pub fn set_as_output<H: RegisterBus>(&mut self, bus: &mut Bus<H>, drive: DriveStrength)
        ensures
            final(self).any_pin() == old(self).any_pin(),
            read_modify_write(old(bus).trace(), final(bus).trace().take(old(bus).trace().len() as int + 2), old(self).any_pin().cfg_addr(),
                0x7u32 << old(self).any_pin().cfg_shift(), PinMode::Output.bits_spec() << old(self).any_pin().cfg_shift()),
            read_modify_write(final(bus).trace().take(old(bus).trace().len() as int + 2), final(bus).trace(), old(self).any_pin().drv_addr(),
                0x3u32 << old(self).any_pin().field_shift(), drive.bits_spec() << old(self).any_pin().field_shift()),
    {
        let ghost t0 = bus.trace();
        self.pin.set_mode(bus, PinMode::Output);
        let ghost t1 = bus.trace();
        self.pin.set_drive(bus, drive);
        assert(bus.trace().take(t0.len() as int + 2) =~= t1);
    }

    /// Whether the pin reads high.
    pub fn is_high<H: RegisterBus>(&self, bus: &mut Bus<H>) -> (r: bool)
        ensures
            reads_pin(old(bus).trace(), final(bus).trace(), self.any_pin(), r),
    {
        self.pin.read_data(bus)
    }

    /// Whether the pin reads low.
    pub fn is_low<H: RegisterBus>(&self, bus: &mut Bus<H>) -> (r: bool)
        ensures
            reads_pin(old(bus).trace(), final(bus).trace(), self.any_pin(), !r),
    {
        !self.is_high(bus)
    }

    /// The level the pin reads.
    pub fn get_level<H: RegisterBus>(&self, bus: &mut Bus<H>) -> (r: Level)
        ensures
            reads_pin(old(bus).trace(), final(bus).trace(), self.any_pin(), r == Level::High),
    {
        Level::from(self.is_high(bus))
    }

    /// Drives the pin high.
    pub fn set_high<H: RegisterBus>(&mut self, bus: &mut Bus<H>)
        ensures
            final(self).any_pin() == old(self).any_pin(),
            writes_pin(old(bus).trace(), final(bus).trace(), old(self).any_pin(), true),
    {
        self.pin.write_data(bus, true);
    }

    /// Drives the pin low.
    pub fn set_low<H: RegisterBus>(&mut self, bus: &mut Bus<H>)
        ensures
            final(self).any_pin() == old(self).any_pin(),
            writes_pin(old(bus).trace(), final(bus).trace(), old(self).any_pin(), false),
    {
        self.pin.write_data(bus, false);
    }

    /// Drives the pin to `level`.
    pub fn set_level<H: RegisterBus>(&mut self, bus: &mut Bus<H>, level: Level)
        ensures
            final(self).any_pin() == old(self).any_pin(),
            writes_pin(old(bus).trace(), final(bus).trace(), old(self).any_pin(), level == Level::High),
    {
        match level {
            Level::Low => self.set_low(bus),
            Level::High => self.set_high(bus),
        }
    }

    /// Inverts the pin: reads it, then drives the opposite level.
    pub fn toggle<H: RegisterBus>(&mut self, bus: &mut Bus<H>)
        ensures
            final(self).any_pin() == old(self).any_pin(),
            final(bus).trace().len() == old(bus).trace().len() + 3,
            reads_pin(
                old(bus).trace(),
                final(bus).trace().take(old(bus).trace().len() as int + 1),
                old(self).any_pin(),
                pin_high(final(bus).trace()[old(bus).trace().len() as int], old(self).any_pin()),
            ),
            writes_pin(
                final(bus).trace().take(old(bus).trace().len() as int + 1),
                final(bus).trace(),
                old(self).any_pin(),
                !pin_high(final(bus).trace()[old(bus).trace().len() as int], old(self).any_pin()),
            ),
    {
        let ghost t0 = bus.trace();
        if self.is_low(bus) {
            let ghost t1 = bus.trace();
            self.set_high(bus);
            assert(bus.trace().take(t0.len() as int + 1) == t1);
        } else {
            let ghost t1 = bus.trace();
            self.set_low(bus);
            assert(bus.trace().take(t0.len() as int + 1) == t1);
        }
    }
}

/// A pin configured as an input.
pub struct Input {
    pin: Flex,
}

impl Input {
    pub closed spec fn any_pin(self) -> AnyPin {
        self.pin.any_pin()
    }

    /// Configures `pin` as an input with the given pull resistor.
    pub fn new<H: RegisterBus>(pin: AnyPin, pull: Pull, bus: &mut Bus<H>) -> (r: Input)
        ensures
            r.any_pin() == pin,
            extends(old(bus).trace(), final(bus).trace()),
            final(bus).trace().len() == old(bus).trace().len() + 4,
            read_modify_write(old(bus).trace(), final(bus).trace().take(old(bus).trace().len() as int + 2),
                pin.cfg_addr(), 0x7u32 << pin.cfg_shift(), PinMode::Input.bits_spec() << pin.cfg_shift()),
            read_modify_write(final(bus).trace().take(old(bus).trace().len() as int + 2), final(bus).trace(),
                pin.pull_addr(), 0x3u32 << pin.field_shift(), pull.bits_spec() << pin.field_shift()),
    {
        let mut pin = Flex::new(pin);
        pin.set_as_input(bus, pull);
        Input { pin }
    }

    pub fn is_high<H: RegisterBus>(&self, bus: &mut Bus<H>) -> (r: bool)
        ensures
            reads_pin(old(bus).trace(), final(bus).trace(), self.any_pin(), r),
    {
        self.pin.is_high(bus)
    }

    pub fn is_low<H: RegisterBus>(&self, bus: &mut Bus<H>) -> (r: bool)
        ensures
            reads_pin(old(bus).trace(), final(bus).trace(), self.any_pin(), !r),
    {
        self.pin.is_low(bus)
    }

    pub fn get_level<H: RegisterBus>(&self, bus: &mut Bus<H>) -> (r: Level)
        ensures
            reads_pin(old(bus).trace(), final(bus).trace(), self.any_pin(), r == Level::High),
    {
        self.pin.get_level(bus)
    }
}

/// A pin configured as an output.
pub struct Output {
    pin: Flex,
}

impl Output {
    pub closed spec fn any_pin(self) -> AnyPin {
        self.pin.any_pin()
    }

    /// Sets the initial level first, then makes `pin` an output, so that the
    /// pin never drives the wrong level.
    pub fn new<H: RegisterBus>(pin: AnyPin, initial_output: Level, drive: DriveStrength, bus: &mut Bus<H>) -> (r:
        Output)
        ensures
            r.any_pin() == pin,
            extends(old(bus).trace(), final(bus).trace()),
            final(bus).trace().len() == old(bus).trace().len() + 6,
            writes_pin(
                old(bus).trace(),
                final(bus).trace().take(old(bus).trace().len() as int + 2),
                pin,
                initial_output == Level::High,
            ),
            read_modify_write(final(bus).trace().take(old(bus).trace().len() as int + 2),
                final(bus).trace().take(old(bus).trace().len() as int + 4),
                pin.cfg_addr(), 0x7u32 << pin.cfg_shift(), PinMode::Output.bits_spec() << pin.cfg_shift()),
            read_modify_write(final(bus).trace().take(old(bus).trace().len() as int + 4), final(bus).trace(),
                pin.drv_addr(), 0x3u32 << pin.field_shift(), drive.bits_spec() << pin.field_shift()),
    {
        let ghost t0 = bus.trace();
        let mut pin = Flex::new(pin);
        match initial_output {
            Level::High => pin.set_high(bus),
            Level::Low => pin.set_low(bus),
        }
        let ghost t1 = bus.trace();
        pin.set_as_output(bus, drive);
        assert(bus.trace().take(t0.len() as int + 2) == t1);
        assert(bus.trace().take(t0.len() as int + 4).take(t0.len() as int + 2) =~= bus.trace().take(t0.len() as int + 2));
        Output { pin }
    }

    pub fn set_high<H: RegisterBus>(&mut self, bus: &mut Bus<H>)
        ensures
            final(self).any_pin() == old(self).any_pin(),
            writes_pin(old(bus).trace(), final(bus).trace(), old(self).any_pin(), true),
    {
        self.pin.set_high(bus);
    }

    pub fn set_low<H: RegisterBus>(&mut self, bus: &mut Bus<H>)
        ensures
            final(self).any_pin() == old(self).any_pin(),
            writes_pin(old(bus).trace(), final(bus).trace(), old(self).any_pin(), false),
    {
        self.pin.set_low(bus);
    }

    pub fn set_level<H: RegisterBus>(&mut self, bus: &mut Bus<H>, level: Level)
        ensures
            final(self).any_pin() == old(self).any_pin(),
            writes_pin(old(bus).trace(), final(bus).trace(), old(self).any_pin(), level == Level::High),
    {
        self.pin.set_level(bus, level)
    }

    /// Whether the pin's data bit is high.
    pub fn is_set_high<H: RegisterBus>(&self, bus: &mut Bus<H>) -> (r: bool)
        ensures
            reads_pin(old(bus).trace(), final(bus).trace(), self.any_pin(), r),
    {
        self.pin.is_high(bus)
    }

    pub fn is_set_low<H: RegisterBus>(&self, bus: &mut Bus<H>) -> (r: bool)
        ensures
            reads_pin(old(bus).trace(), final(bus).trace(), self.any_pin(), !r),
    {
        self.pin.is_low(bus)
    }

    pub fn get_output_level<H: RegisterBus>(&self, bus: &mut Bus<H>) -> (r: Level)
        ensures
            reads_pin(old(bus).trace(), final(bus).trace(), self.any_pin(), r == Level::High),
    {
        self.pin.get_level(bus)
    }

    /// Inverts the pin: reads it, then drives the opposite level.
    pub fn toggle<H: RegisterBus>(&mut self, bus: &mut Bus<H>)
        ensures
            final(self).any_pin() == old(self).any_pin(),
            final(bus).trace().len() == old(bus).trace().len() + 3,
            reads_pin(
                old(bus).trace(),
                final(bus).trace().take(old(bus).trace().len() as int + 1),
                old(self).any_pin(),
                pin_high(final(bus).trace()[old(bus).trace().len() as int], old(self).any_pin()),
            ),
            writes_pin(
                final(bus).trace().take(old(bus).trace().len() as int + 1),
                final(bus).trace(),
                old(self).any_pin(),
                !pin_high(final(bus).trace()[old(bus).trace().len() as int], old(self).any_pin()),
            ),
    {
        self.pin.toggle(bus);
    }
}

} // verus!
