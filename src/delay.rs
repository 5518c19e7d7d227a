//! Calibrated busy-wait delays.
use vstd::prelude::*;

verus! {

/// Relies on core::hint::spin_loop: a processor hint with no observable effect,
/// which keeps a delay loop from being optimised away.
#[verifier::external_body]
fn spin_hint() {
    core::hint::spin_loop()
}

/// Spins for `loops` iterations.
pub fn sdelay(loops: u32) {
    let mut i: u32 = 0;
    while i < loops
        invariant
            i <= loops,
        decreases loops - i,
    {
        spin_hint();
        i = i + 1;
    }
}

} // verus!
