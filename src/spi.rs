//! SPI clock divider selection.
use vstd::arithmetic::power2::pow2;
use vstd::prelude::*;

verus! {

/// Transfer error.
#[derive(Debug, PartialEq, Eq, Clone, Copy, Structural)]
pub enum Error {
    RxOverflow,
    TxUnderrun,
    Timeout,
}

/// Bit order on the wire.
#[derive(Copy, Clone, Debug, PartialEq, Eq, Structural)]
pub enum BitOrder {
    MsbFirst,
    LsbFirst,
}

/// Hardware chip-select line.
#[derive(Copy, Clone, Debug, PartialEq, Eq, Structural)]
pub enum ChipSelect {
    Ss0,
    Ss1,
    Ss2,
    Ss3,
}

/// Setting of the clock control register.
#[derive(Copy, Clone, Debug, PartialEq, Eq, Structural)]
pub enum ClockDivider {
    /// SPI clock = AHB / (2 * (n + 1)).
    Linear(u8),
    /// SPI clock = AHB / 2^(n + 1).
    Power(u8),
}

/// Linear divider value for `target` Hz from `ahb` Hz.
pub open spec fn linear_divider(ahb: u32, target: u32) -> int {
    if target >= ahb / 2 {
        0
    } else if ahb as int / (2 * target as int) >= 1 {
        ahb as int / (2 * target as int) - 1
    } else {
        0
    }
}

/// Smallest power divider, up to 15, whose clock does not exceed `target`.
pub open spec fn power_divider_ok(ahb: u32, target: u32, n: int) -> bool {
    0 <= n <= 15 && (n == 15 || ahb as int / (pow2((n + 1) as nat) as int) <= target) && forall|j: int|
        0 <= j < n ==> ahb as int / (#[trigger] pow2((j + 1) as nat) as int) > target
}

/// The divider setting for a SPI clock of `target` Hz from an AHB clock of
/// `ahb` Hz: the linear divider when it fits in eight bits, else the power
/// divider. `None` for a zero target, which leaves the clock as it is.
pub fn clock_divider(ahb: u32, target: u32) -> (r: Option<ClockDivider>)
    ensures
        target == 0 <==> r is None,
        r matches Some(ClockDivider::Linear(n)) ==> linear_divider(ahb, target) <= 255 && n
            == linear_divider(ahb, target),
        r matches Some(ClockDivider::Power(n)) ==> linear_divider(ahb, target) > 255
            && power_divider_ok(ahb, target, n as int),
{
    if target == 0 {
        return None;
    }
    let cdr2_val: u32 = if target >= ahb / 2 {
        0
    } else {
        (ahb / (2 * target)).saturating_sub(1)
    };
    assert(cdr2_val == linear_divider(ahb, target));
    if cdr2_val <= 255 {
        return Some(ClockDivider::Linear(cdr2_val as u8));
    }
    let mut cdr1: u8 = 0;
    while cdr1 < 15
        invariant
            cdr1 <= 15,
            linear_divider(ahb, target) > 255,
            target > 0,
            forall|j: int| 0 <= j < cdr1 ==> ahb as int / (#[trigger] pow2((j + 1) as nat) as int) > target,
        decreases 15 - cdr1,
    {
        let shift: u32 = cdr1 as u32 + 1;
        proof {
            vstd::arithmetic::power2::lemma2_to64();
            vstd::arithmetic::power2::lemma_pow2_strictly_increases(shift as nat, 16);
            vstd::bits::lemma_u32_shl_is_mul(1, shift);
        }
        let d: u32 = 1u32 << shift;
        if ahb / d <= target {
            return Some(ClockDivider::Power(cdr1));
        }
        cdr1 = cdr1 + 1;
    }
    Some(ClockDivider::Power(cdr1))
}

} // verus!
