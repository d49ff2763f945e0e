//! The argument checks of the numeric intrinsics that compiled models call:
//! the Modelica random generators and the real FFT. They decide the status
//! code; the numeric work itself is done by the caller.

use vstd::prelude::*;

verus! {

/// The status of a random-number draw for generator `kind` with a state of
/// `n` words: `-2` for a bad length, `-3` for an unknown generator, `0` when
/// the draw can be made (`xorshift64*` takes 2 words, `xorshift128+` 4 and
/// `xorshift1024*` 33).
pub open spec fn random_status(kind: i32, n: i64) -> int {
    if n <= 0 {
        -2
    } else if kind == 0 {
        if n != 2 { -2 } else { 0 }
    } else if kind == 1 {
        if n != 4 { -2 } else { 0 }
    } else if kind == 2 {
        if n != 33 { -2 } else { 0 }
    } else {
        -3
    }
}

/// The status of a random-number draw (see [`random_status`]).
pub fn msl_random_status(kind: i32, n: i64) -> (r: i32)
    ensures
        r == random_status(kind, n),
{
    if n <= 0 {
        return -2;
    }
    match kind {
        0 => if n != 2 { -2 } else { 0 },
        1 => if n != 4 { -2 } else { 0 },
        2 => if n != 33 { -2 } else { 0 },
        _ => -3,
    }
}

/// The status of a real FFT of `nu` samples giving `nfi` frequencies into
/// outputs of `amp_len` amplitudes and `phase_len` phases: `1` when `nu` is
/// odd; `3` when `nfi` is zero or more than `nu / 2 + 1`, or an output is too
/// short; `0` when the transform can run.
pub open spec fn fft_status(nu: usize, nfi: usize, amp_len: usize, phase_len: usize, write_phases: bool) -> i32 {
    if nu % 2 != 0 {
        1
    } else if nfi == 0 || nfi > nu / 2 + 1 {
        3
    } else if amp_len < nfi {
        3
    } else if write_phases && phase_len < nfi {
        3
    } else {
        0
    }
}

/// The status of a real FFT (see [`fft_status`]).
pub fn real_fft_status(nu: usize, nfi: usize, amp_len: usize, phase_len: usize, write_phases: bool) -> (r: i32)
    ensures
        r == fft_status(nu, nfi, amp_len, phase_len, write_phases),
{
    if nu % 2 != 0 {
        return 1;
    }
    let nf = nu / 2 + 1;
    if nfi == 0 || nfi > nf {
        return 3;
    }
    if amp_len < nfi {
        return 3;
    }
    if write_phases && phase_len < nfi {
        return 3;
    }
    0
}

} // verus!
