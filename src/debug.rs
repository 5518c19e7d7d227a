//! Debug output on UART0 at 115200 baud, 8N1: line setup from the clock tree's
//! APB frequency, and the byte stream that a line of text becomes.
use vstd::prelude::*;

use crate::bus::{extends, Bus, BusOp, RegisterBus};
use crate::dram::rmw_at;
use crate::gpio::{AnyPin, PinMode};
use crate::rcc::Clocks;

verus! {

pub const UART0_BASE: u32 = 0x01c2_5000;
/// Divisor latch low / transmit holding register.
pub const UART0_DLL: u32 = 0x01c2_5000;
/// Divisor latch high / interrupt enable register.
pub const UART0_DLH: u32 = 0x01c2_5004;
/// Interrupt enable register, at the divisor latch's high byte when the latch is closed.
pub const UART0_IER: u32 = 0x01c2_5004;
pub const UART0_FCR: u32 = 0x01c2_5008;
pub const UART0_LCR: u32 = 0x01c2_500c;
pub const UART0_MCR: u32 = 0x01c2_5010;
pub const CCU_BUS_CLK_GATING2: u32 = 0x01c2_0068;
pub const CCU_BUS_SOFT_RST2: u32 = 0x01c2_02d0;
/// UART0 bit in the gating and reset registers.
pub const UART0_BUS_BIT: u32 = 0x0010_0000;
/// Debug line rate.
pub const DEBUG_BAUD: u32 = 115_200;
/// Pins PE0 (receive) and PE1 (transmit).
pub const PE0: u8 = 0x80;
pub const PE1: u8 = 0x81;

/// The debug output channel.
pub struct DebugPrint;

/// Divisor for 115200 baud from `apb_hz`, rounded to nearest.
pub open spec fn debug_divisor_spec(apb_hz: u32) -> u32 {
    ((apb_hz + 921_600) / 1_843_200int) as u32
}

pub fn debug_divisor(apb_hz: u32) -> (r: u32)
    requires
        apb_hz <= 0xffff_ffff - 8 * 115_200,
    ensures
        r == debug_divisor_spec(apb_hz),
{
    (apb_hz + 8 * DEBUG_BAUD) / (16 * DEBUG_BAUD)
}

/// Text as sent on the line: every line feed preceded by a carriage return.
pub open spec fn crlf_spec(s: Seq<u8>) -> Seq<u8>
    decreases s.len(),
{
    if s.len() == 0 {
        Seq::empty()
    } else {
        crlf_spec(s.drop_last()) + if s.last() == 10u8 {
            seq![13u8, 10u8]
        } else {
            seq![s.last()]
        }
    }
}

proof fn lemma_crlf_len(s: Seq<u8>)
    ensures
        crlf_spec(s).len() <= 2 * s.len(),
    decreases s.len(),
{
    if s.len() > 0 {
        lemma_crlf_len(s.drop_last());
    }
}

/// Read-modify-write of one register.
fn modify<H: RegisterBus>(bus: &mut Bus<H>, addr: u32, clear: u32, set: u32)
    ensures
        final(bus).trace().len() == old(bus).trace().len() + 2,
        extends(old(bus).trace(), final(bus).trace()),
        rmw_at(final(bus).trace(), old(bus).trace().len() as int, addr, clear, set),
{
    let v = bus.read32(addr);
    bus.write32(addr, (v & !clear) | set);
}

/// `t[a..a + 19]` sets UART0 up for debug output with divisor `d`: bus clock
/// gate and reset release, PE0/PE1 in function 5, interrupts off, FIFOs reset
/// and enabled, modem control cleared, the divisor written through the
/// divisor latch (LCR bit 7 set, then cleared), and 8N1 line control.
pub open spec fn uart_setup(t: Seq<BusOp>, a: int, d: u32) -> bool {
    let pe0_shift = 0u32;
    let pe1_shift = 4u32;
    &&& rmw_at(t, a, CCU_BUS_CLK_GATING2, 0, UART0_BUS_BIT)
    &&& rmw_at(t, a + 2, CCU_BUS_SOFT_RST2, 0, UART0_BUS_BIT)
    &&& rmw_at(t, a + 4, 0x01c2_0890, 0x7u32 << pe0_shift, 5u32 << pe0_shift)
    &&& rmw_at(t, a + 6, 0x01c2_0890, 0x7u32 << pe1_shift, 5u32 << pe1_shift)
    &&& t[a + 8] == (BusOp::Write { addr: UART0_IER, value: 0 })
    &&& t[a + 9] == (BusOp::Write { addr: UART0_FCR, value: 0xf7 })
    &&& t[a + 10] == (BusOp::Write { addr: UART0_MCR, value: 0 })
    &&& rmw_at(t, a + 11, UART0_LCR, 0, 0x80)
    &&& t[a + 13] == (BusOp::Write { addr: UART0_DLL, value: d & 0xff })
    &&& t[a + 14] == (BusOp::Write { addr: UART0_DLH, value: (d >> 8u32) & 0xff })
    &&& rmw_at(t, a + 15, UART0_LCR, 0x80, 0)
    &&& rmw_at(t, a + 17, UART0_LCR, 0x1f, 0x03)
}

impl DebugPrint {
    /// Turns on UART0's clock and reset, routes PE0/PE1 to it (function 5)
    /// and sets 115200 baud, 8N1, with the FIFOs reset and enabled.
    pub fn enable<H: RegisterBus>(bus: &mut Bus<H>, clocks: &Clocks)
        requires
            clocks.pclk <= 0xffff_ffff - 8 * 115_200,
        ensures
            extends(old(bus).trace(), final(bus).trace()),
            uart_setup(final(bus).trace(), old(bus).trace().len() as int, debug_divisor_spec(clocks.pclk)),
            final(bus).trace().len() == old(bus).trace().len() + 19,
    {
        let ghost a = old(bus).trace().len() as int;
        modify(bus, CCU_BUS_CLK_GATING2, 0, UART0_BUS_BIT);
        modify(bus, CCU_BUS_SOFT_RST2, 0, UART0_BUS_BIT);
        let ghost t1 = bus.trace();

        AnyPin::steal(PE0).set_mode(bus, PinMode::Func5);
        AnyPin::steal(PE1).set_mode(bus, PinMode::Func5);
        let ghost t2 = bus.trace();

        bus.write32(UART0_IER, 0);
        bus.write32(UART0_FCR, 0xf7);
        bus.write32(UART0_MCR, 0);

        let divisor = debug_divisor(clocks.pclk);
        modify(bus, UART0_LCR, 0, 0x80);
        bus.write32(UART0_DLL, divisor & 0xff);
        bus.write32(UART0_DLH, (divisor >> 8) & 0xff);
        modify(bus, UART0_LCR, 0x80, 0);
        modify(bus, UART0_LCR, 0x1f, 0x03);
        proof {
            let t = bus.trace();
            assert(t[a] == t1[a] && t[a + 1] == t1[a + 1] && t[a + 2] == t1[a + 2] && t[a + 3] == t1[a + 3]);
            assert(t[a + 4] == t2[a + 4] && t[a + 5] == t2[a + 5] && t[a + 6] == t2[a + 6] && t[a + 7] == t2[a + 7]);
        }
    }

    /// The bytes that `text` is sent as.
    pub fn line_bytes(text: &[u8]) -> (r: Vec<u8>)
        requires
            text@.len() <= 0x7fff_ffff,
        ensures
            r@ == crlf_spec(text@),
    {
        let mut out: Vec<u8> = Vec::new();
        let mut i: usize = 0;
        while i < text.len()
            invariant
                i <= text@.len(),
                text@.len() <= 0x7fff_ffff,
                out@ == crlf_spec(text@.subrange(0, i as int)),
            decreases text@.len() - i,
        {
            proof {
                lemma_crlf_len(text@.subrange(0, i as int));
                assert(text@.subrange(0, i as int + 1).drop_last() == text@.subrange(0, i as int));
            }
            let b = text[i];
            if b == 10u8 {
                out.push(13u8);
                out.push(10u8);
            } else {
                out.push(b);
            }
            i = i + 1;
        }
        assert(text@.subrange(0, text@.len() as int) == text@);
        out
    }
}

} // verus!
