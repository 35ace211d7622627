//! The frequency steps of the CPU controller: each policy's next frequency
//! limit from the policy's correction, held within its range and within the
//! extra bound that plugins put on it.
use vstd::prelude::*;

use crate::extra_policy::{AbsRangeBound, ExtraPolicy, RelRangeBound};

verus! {

/// `x` held within `[lo, hi]`.
pub open spec fn clamp_spec(x: int, lo: int, hi: int) -> int {
    if x < lo {
        lo
    } else if x > hi {
        hi
    } else {
        x
    }
}

/// The current limit moved by the correction (kHz), held within the policy's
/// range `[min, max]`.
pub fn next_freq(cur: isize, control: isize, min: isize, max: isize) -> (r: isize)
    requires
        min <= max,
    ensures
        r == clamp_spec(cur + control, min as int, max as int),
{
    let sum: i128 = cur as i128 + control as i128;
    if sum < min as i128 {
        min
    } else if sum > max as i128 {
        max
    } else {
        sum as isize
    }
}

/// The lower and upper limit a bound gives, for a policy whose related policy
/// runs at `rel_freq` (kHz) when known; a missing side stays open (`None`).
pub open spec fn bound_limits(p: ExtraPolicy, rel_freq: Option<isize>) -> (Option<int>, Option<int>) {
    match p {
        ExtraPolicy::NoBound => (None, None),
        ExtraPolicy::AbsRangeBound(b) => (
            match b.min {
                Some(m) => Some(m as int),
                None => None,
            },
            match b.max {
                Some(m) => Some(m as int),
                None => None,
            },
        ),
        ExtraPolicy::RelRangeBound(b) => match rel_freq {
            None => (None, None),
            Some(f) => (
                match b.min {
                    Some(m) => Some(f + m),
                    None => None,
                },
                match b.max {
                    Some(m) => Some(f + m),
                    None => None,
                },
            ),
        },
    }
}

/// `freq` raised to the lower limit, then lowered to the upper one, both
/// held within the policy's range.
pub open spec fn bounded_freq_spec(freq: int, lo: Option<int>, hi: Option<int>, min: int, max: int) -> int {
    let raised = match lo {
        Some(l) => if freq < clamp_spec(l, min, max) {
            clamp_spec(l, min, max)
        } else {
            freq
        },
        None => freq,
    };
    match hi {
        Some(h) => if raised > clamp_spec(h, min, max) {
            clamp_spec(h, min, max)
        } else {
            raised
        },
        None => raised,
    }
}

fn clamp_i128(x: i128, lo: isize, hi: isize) -> (r: isize)
    requires
        lo <= hi,
    ensures
        r == clamp_spec(x as int, lo as int, hi as int),
{
    if x < lo as i128 {
        lo
    } else if x > hi as i128 {
        hi
    } else {
        x as isize
    }
}

/// The frequency limit `freq` (within `[min, max]`) after the extra bound
/// `p` of its policy; `rel_freq` is the related policy's limit, when known.
pub fn bounded_freq(freq: isize, p: ExtraPolicy, rel_freq: Option<isize>, min: isize, max: isize) -> (r: isize)
    requires
        min <= freq <= max,
    ensures
        r == bounded_freq_spec(
            freq as int,
            bound_limits(p, rel_freq).0,
            bound_limits(p, rel_freq).1,
            min as int,
            max as int,
        ),
        min <= r <= max,
{
    let (lo, hi): (Option<i128>, Option<i128>) = match p {
        ExtraPolicy::NoBound => (None, None),
        ExtraPolicy::AbsRangeBound(AbsRangeBound { min: a, max: b }) => (
            match a {
                Some(m) => Some(m as i128),
                None => None,
            },
            match b {
                Some(m) => Some(m as i128),
                None => None,
            },
        ),
        ExtraPolicy::RelRangeBound(RelRangeBound { min: a, max: b, rel_to: _ }) => match rel_freq {
            None => (None, None),
            Some(f) => (
                match a {
                    Some(m) => Some(f as i128 + m as i128),
                    None => None,
                },
                match b {
                    Some(m) => Some(f as i128 + m as i128),
                    None => None,
                },
            ),
        },
    };
    let raised = match lo {
        Some(l) => {
            let c = clamp_i128(l, min, max);
            if freq < c {
                c
            } else {
                freq
            }
        },
        None => freq,
    };
    match hi {
        Some(h) => {
            let c = clamp_i128(h, min, max);
            if raised > c {
                c
            } else {
                raised
            }
        },
        None => raised,
    }
}

} // verus!
