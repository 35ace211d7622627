//! The frequency correction of the PID frame-time controller.
//!
//! Its gains are 1/10000 (proportional), 1/200000 or 1/2500 (integral, as
//! frames run slow or fast) and 1/400000 (derivative). The correction is
//! computed exactly on nanosecond frame times and cut toward zero to a whole
//! number of kilohertz.
use vstd::prelude::*;

verus! {

/// Quotient of `n` by a positive `d`, rounded toward zero.
pub open spec fn div_toward_zero(n: int, d: int) -> int {
    if n >= 0 {
        n / d
    } else {
        -((-n) / d)
    }
}

/// `x` limited to the range of `isize`.
pub open spec fn saturate_isize(x: int) -> int {
    if x < isize::MIN {
        isize::MIN as int
    } else if x > isize::MAX {
        isize::MAX as int
    } else {
        x
    }
}

/// The derivative term's numerator: twice the last 30 frames less the last
/// 60, kept only in the direction the average frame time is off in.
pub open spec fn derivative_part(slow: bool, last_30: int, last_60: int) -> int {
    let d = 2 * last_30 - last_60;
    if slow {
        if d > 0 {
            d
        } else {
            0
        }
    } else {
        if d < 0 {
            d
        } else {
            0
        }
    }
}

/// The correction in units of 1/400000 kHz.
pub open spec fn pid_numerator(
    avg_time: nat,
    current: nat,
    target: nat,
    last_30: nat,
    last_60: nat,
) -> int {
    let slow = avg_time > target;
    let ki_scale: int = if slow {
        2
    } else {
        160
    };
    40 * (current - target) + ki_scale * (last_30 - 30 * target) + derivative_part(
        slow,
        last_30 as int,
        last_60 as int,
    )
}

/// The correction for the given frame times (nanoseconds), in kHz.
pub open spec fn pid_correction(
    avg_time: nat,
    current: nat,
    target: nat,
    last_30: nat,
    last_60: nat,
) -> int {
    saturate_isize(
        div_toward_zero(pid_numerator(avg_time, current, target, last_30, last_60), 400000),
    )
}

/// The largest frame-time sum taken in, in nanoseconds (`Duration::MAX`).
pub const PID_INPUT_MAX: u128 = 18_446_744_073_709_551_615_999_999_999;

/// The PID correction from the average frame time, the current frame time,
/// the target frame time and the sums of the last 30 and 60 frame times.
pub fn pid_control_inner(
    avg_time: u128,
    current_frametime: u128,
    target_frametime: u128,
    last_30_frametimes_sum: u128,
    last_60_frametimes_sum: u128,
) -> (r: isize)
    requires
        avg_time <= PID_INPUT_MAX,
        current_frametime <= PID_INPUT_MAX,
        target_frametime <= PID_INPUT_MAX,
        last_30_frametimes_sum <= PID_INPUT_MAX,
        last_60_frametimes_sum <= PID_INPUT_MAX,
    ensures
        r as int == pid_correction(
            avg_time as nat,
            current_frametime as nat,
            target_frametime as nat,
            last_30_frametimes_sum as nat,
            last_60_frametimes_sum as nat,
        ),
{
    let cur = current_frametime as i128;
    let target = target_frametime as i128;
    let l30 = last_30_frametimes_sum as i128;
    let l60 = last_60_frametimes_sum as i128;
    let slow = avg_time > target_frametime;
    let ki_scale: i128 = if slow {
        2
    } else {
        160
    };
    let d = 2 * l30 - l60;
    let dp = if slow {
        if d > 0 {
            d
        } else {
            0
        }
    } else {
        if d < 0 {
            d
        } else {
            0
        }
    };
    let n = 40 * (cur - target) + ki_scale * (l30 - 30 * target) + dp;
    let q: i128 = if n >= 0 {
        n / 400000
    } else {
        -((-n) / 400000)
    };
    if q < isize::MIN as i128 {
        isize::MIN
    } else if q > isize::MAX as i128 {
        isize::MAX
    } else {
        q as isize
    }
}

} // verus!
