//! The frame buffer of the game in front: recent frame times, the frame rate
//! they show, the target frame rate picked from the configured ones, and
//! whether the data is settled enough to act on.
//!
//! Durations and instants are nanoseconds; instants come from a monotonic
//! clock. A frame rate is kept exactly as the reciprocal of an average frame
//! time, so comparing it with a whole number of frames per second is exact.
use vstd::prelude::*;

use crate::config::{fps_list, TargetFps};

verus! {

/// Nanoseconds in a second.
pub const NANOS_PER_SEC: u64 = 1_000_000_000;

/// The largest duration that `std::time::Duration` can hold, in nanoseconds.
pub const DURATION_MAX_NS: u128 = 18_446_744_073_709_551_615_999_999_999;

/// How often the frame rate is recomputed, in nanoseconds (100 ms).
pub const CALCULATE_INTERVAL_NS: u64 = 100_000_000;

/// How long the buffer stays unusable after a reset, in nanoseconds (1 s).
pub const USABLE_DELAY_NS: u64 = 1_000_000_000;

/// The candidate rates tried when the configuration says `"auto"`.
pub open spec fn auto_fps_list() -> Seq<u32> {
    seq![30u32, 45, 60, 90, 120, 144]
}

#[derive(Debug, PartialEq, Eq, Clone, Copy, Structural)]
pub enum BufferWorkingState {
    Unusable,
    Usable,
}

/// A measured frame rate: none yet (0 fps), or one frame per `Period(p)`
/// nanoseconds (1e9 / p frames per second; a period of 0 is an unbounded rate).
#[derive(Debug, PartialEq, Eq, Clone, Copy, Structural)]
pub enum FrameRate {
    Unmeasured,
    Period(u128),
}

/// The rate is below `k` frames per second.
pub open spec fn rate_lt(r: FrameRate, k: int) -> bool {
    match r {
        FrameRate::Unmeasured => 0 < k,
        FrameRate::Period(p) => p > 0 && NANOS_PER_SEC < k * p,
    }
}

/// The rate is at most `k` frames per second.
pub open spec fn rate_le(r: FrameRate, k: int) -> bool {
    match r {
        FrameRate::Unmeasured => 0 <= k,
        FrameRate::Period(p) => p > 0 && NANOS_PER_SEC <= k * p,
    }
}

/// Sum of a sequence of durations.
pub open spec fn seq_sum(s: Seq<u64>) -> nat
    decreases s.len(),
{
    if s.len() == 0 {
        0
    } else {
        seq_sum(s.drop_last()) + (s.last() as nat)
    }
}

pub open spec fn min_nat(a: nat, b: nat) -> nat {
    if a <= b {
        a
    } else {
        b
    }
}

/// Time from `since` to `now`, zero when `now` is not later.
pub open spec fn elapsed(now: u64, since: u64) -> nat {
    if now >= since {
        (now - since) as nat
    } else {
        0
    }
}

/// The average of the first `n` frame times, with `extra` added to their sum
/// (the sum saturating at the largest duration), divided by how many were
/// summed; zero when none were.
pub open spec fn average_of(s: Seq<u64>, n: nat, extra: u64) -> nat {
    let count = min_nat(n, s.len());
    let total: nat = seq_sum(s.take(count as int)) + (extra as nat);
    let total = if total > DURATION_MAX_NS {
        DURATION_MAX_NS as nat
    } else {
        total
    };
    if count == 0 {
        0
    } else {
        total / count
    }
}

/// The averaging over the first `n` frame times neither overflows a duration
/// nor divides by more than `u32::MAX`.
pub open spec fn average_ok(s: Seq<u64>, n: nat) -> bool {
    let count = min_nat(n, s.len());
    count <= u32::MAX && seq_sum(s.take(count as int)) <= DURATION_MAX_NS
}

/// First candidate from index `i` on that the rate does not exceed by more
/// than 3 fps; the last candidate when there is none.
pub open spec fn pick_from(list: Seq<u32>, r: FrameRate, i: int) -> Option<u32>
    decreases list.len() - i,
{
    if i < 0 || i >= list.len() {
        if list.len() == 0 {
            None
        } else {
            Some(list.last())
        }
    } else if rate_le(r, list[i] + 3) {
        Some(list[i])
    } else {
        pick_from(list, r, i + 1)
    }
}

/// The lowest rate at which a target is still picked: ten below the first
/// candidate, but at least 10 fps.
pub open spec fn pick_floor(first: u32) -> int {
    let below = if first >= 10 {
        first - 10
    } else {
        0
    };
    if below >= 10 {
        below
    } else {
        10
    }
}

/// The target frame rate the candidates give at rate `r`: none when there are
/// no candidates or the rate is under the floor; else the first candidate the
/// rate does not exceed by more than 3; else the last candidate.
pub open spec fn pick_target(list: Seq<u32>, r: FrameRate) -> Option<u32> {
    if list.len() == 0 {
        None
    } else if rate_lt(r, pick_floor(list[0])) {
        None
    } else {
        pick_from(list, r, 0)
    }
}

/// The most frame times kept: five seconds' worth at the target rate, or at
/// 144 fps while there is no target.
pub open spec fn frame_cap(t: Option<u32>) -> nat {
    match t {
        Some(v) => (v as nat) * 5,
        None => 144 * 5,
    }
}

/// Everything a buffer holds, as plain values.
pub struct BufferView {
    pub pid: i32,
    pub pkg: Seq<char>,
    /// Newest first.
    pub frametimes: Seq<u64>,
    pub additional_frametime: u64,
    pub avg_time_long: u128,
    pub avg_time_short: u128,
    pub current_fps_long: FrameRate,
    pub current_fps_short: FrameRate,
    pub target_fps: Option<u32>,
    pub target_fps_config: Seq<u32>,
    pub last_update: u64,
    pub working_state: BufferWorkingState,
    pub calculate_timer: u64,
    pub working_state_timer: u64,
}

/// Recomputes both averages and rates: the long one over all frame times, the
/// short one over as many frames as the target rate (picked at the new long
/// rate) has per second.
pub open spec fn calc_current_fps(v: BufferView) -> BufferView {
    let avg_long = average_of(v.frametimes, v.frametimes.len(), v.additional_frametime);
    let fps_long = FrameRate::Period(avg_long as u128);
    let short_n = match pick_target(v.target_fps_config, fps_long) {
        Some(t) => t as nat,
        None => v.frametimes.len(),
    };
    let avg_short = average_of(v.frametimes, short_n, v.additional_frametime);
    BufferView {
        avg_time_long: avg_long as u128,
        current_fps_long: fps_long,
        avg_time_short: avg_short as u128,
        current_fps_short: FrameRate::Period(avg_short as u128),
        ..v
    }
}

/// Marks the buffer unusable from `now` on.
pub open spec fn mark_unusable(v: BufferView, now: u64) -> BufferView {
    BufferView { working_state: BufferWorkingState::Unusable, working_state_timer: now, ..v }
}

/// Re-picks the target rate. When it changed, or there is none, the frame
/// times are dropped, the new target is recorded and the buffer becomes
/// unusable; the second component is the new target to announce, if any.
pub open spec fn calc_target_fps(v: BufferView, now: u64) -> (BufferView, Option<u32>) {
    let new_target = pick_target(v.target_fps_config, v.current_fps_long);
    if v.target_fps != new_target || new_target is None {
        (
            mark_unusable(
                BufferView { frametimes: Seq::empty(), target_fps: new_target, ..v },
                now,
            ),
            new_target,
        )
    } else {
        (v, None)
    }
}

/// The buffer becomes usable once it has been unusable for a second.
pub open spec fn try_usable_spec(v: BufferView, now: u64) -> BufferView {
    if v.working_state == BufferWorkingState::Unusable && elapsed(now, v.working_state_timer)
        >= USABLE_DELAY_NS {
        BufferView { working_state: BufferWorkingState::Usable, ..v }
    } else {
        v
    }
}

/// Every 100 ms, the rates and then the target are recomputed.
pub open spec fn calculation_due(v: BufferView, now: u64) -> bool {
    elapsed(now, v.calculate_timer) >= CALCULATE_INTERVAL_NS
}

pub open spec fn try_calculate_spec(v: BufferView, now: u64) -> (BufferView, Option<u32>) {
    if calculation_due(v, now) {
        calc_target_fps(calc_current_fps(BufferView { calculate_timer: now, ..v }), now)
    } else {
        (v, None)
    }
}

/// The frame times after `d` is pushed: the oldest dropped until one less than
/// the cap remain, then `d` put in front.
pub open spec fn pushed_frametimes(v: BufferView, d: u64) -> Seq<u64> {
    let keep = if v.frametimes.len() >= frame_cap(v.target_fps) {
        (frame_cap(v.target_fps) - 1) as nat
    } else {
        v.frametimes.len()
    };
    seq![d] + v.frametimes.take(keep as int)
}

/// A new frame time `d` arrives at `now`.
pub open spec fn push_spec(v: BufferView, d: u64, now: u64) -> (BufferView, Option<u32>) {
    let dropped = v.frametimes.len() >= frame_cap(v.target_fps);
    let w = BufferView {
        additional_frametime: 0,
        last_update: now,
        frametimes: pushed_frametimes(v, d),
        ..v
    };
    let w = if dropped {
        try_usable_spec(w, now)
    } else {
        w
    };
    try_calculate_spec(w, now)
}

/// No frame arrived: the time since the last one counts as a frame in progress.
pub open spec fn additional_spec(v: BufferView, now: u64) -> (BufferView, Option<u32>) {
    try_calculate_spec(
        BufferView { additional_frametime: elapsed(now, v.last_update) as u64, ..v },
        now,
    )
}

pub proof fn lemma_seq_sum_prefix_le(s: Seq<u64>, k: int)
    requires
        0 <= k <= s.len(),
    ensures
        seq_sum(s.take(k)) <= seq_sum(s),
    decreases s.len() - k,
{
    if k < s.len() {
        lemma_seq_sum_prefix_le(s, k + 1);
        assert(s.take(k + 1).drop_last() =~= s.take(k));
    } else {
        assert(s.take(k) =~= s);
    }
}

pub proof fn lemma_average_ok_smaller(s: Seq<u64>, n: nat, m: nat)
    requires
        average_ok(s, n),
        min_nat(m, s.len()) <= min_nat(n, s.len()),
    ensures
        average_ok(s, m),
{
    let cn = min_nat(n, s.len());
    let cm = min_nat(m, s.len());
    lemma_seq_sum_prefix_le(s.take(cn as int), cm as int);
    assert(s.take(cn as int).take(cm as int) =~= s.take(cm as int));
}

/// The pieces that make up one package's state.
#[derive(Debug)]
pub struct PackageInfo {
    pub pid: i32,
    pub pkg: String,
}

#[derive(Debug)]
pub struct FrameTimeState {
    /// Newest first, in nanoseconds.
    pub frametimes: std::collections::VecDeque<u64>,
    /// Time since the last frame while none arrives, in nanoseconds.
    pub additional_frametime: u64,
    pub avg_time_long: u128,
    pub avg_time_short: u128,
    pub current_fps_long: FrameRate,
    pub current_fps_short: FrameRate,
}

#[derive(Debug)]
pub struct TargetFpsState {
    pub target_fps: Option<u32>,
    pub target_fps_config: TargetFps,
}

impl TargetFpsState {
    /// No target yet, candidates from `target_fps_config`.
    pub fn new(target_fps_config: TargetFps) -> (r: Self)
        ensures
            r.target_fps is None,
            r.target_fps_config == target_fps_config,
    {
        TargetFpsState { target_fps: None, target_fps_config }
    }
}

#[derive(Debug)]
pub struct BufferState {
    pub last_update: u64,
    pub working_state: BufferWorkingState,
    pub calculate_timer: u64,
    pub working_state_timer: u64,
}

impl BufferState {
    /// Unusable, every clock started at `now`.
    pub fn new(now: u64) -> (r: Self)
        ensures
            r.last_update == now,
            r.working_state == BufferWorkingState::Unusable,
            r.calculate_timer == now,
            r.working_state_timer == now,
    {
        BufferState {
            last_update: now,
            working_state: BufferWorkingState::Unusable,
            calculate_timer: now,
            working_state_timer: now,
        }
    }
}

#[derive(Debug)]
pub struct Buffer {
    pub package_info: PackageInfo,
    pub frametime_state: FrameTimeState,
    pub target_fps_state: TargetFpsState,
    pub state: BufferState,
}

impl View for Buffer {
    type V = BufferView;

    open spec fn view(&self) -> BufferView {
        BufferView {
            pid: self.package_info.pid,
            pkg: self.package_info.pkg@,
            frametimes: self.frametime_state.frametimes@,
            additional_frametime: self.frametime_state.additional_frametime,
            avg_time_long: self.frametime_state.avg_time_long,
            avg_time_short: self.frametime_state.avg_time_short,
            current_fps_long: self.frametime_state.current_fps_long,
            current_fps_short: self.frametime_state.current_fps_short,
            target_fps: self.target_fps_state.target_fps,
            target_fps_config: fps_list(self.target_fps_state.target_fps_config),
            last_update: self.state.last_update,
            working_state: self.state.working_state,
            calculate_timer: self.state.calculate_timer,
            working_state_timer: self.state.working_state_timer,
        }
    }
}

impl Buffer {
    /// An empty, unusable buffer for `pkg` running as `pid`, created at `now`.
    pub fn new(target_fps_config: TargetFps, pid: i32, pkg: String, now: u64) -> (r: Self)
        ensures
            r@.pid == pid,
            r@.pkg == pkg@,
            r@.frametimes.len() == 0,
            r@.additional_frametime == 0,
            r@.avg_time_long == 0,
            r@.avg_time_short == 0,
            r@.current_fps_long == FrameRate::Unmeasured,
            r@.current_fps_short == FrameRate::Unmeasured,
            r@.target_fps is None,
            r@.target_fps_config == fps_list(target_fps_config),
            r@.last_update == now,
            r@.working_state == BufferWorkingState::Unusable,
            r@.calculate_timer == now,
            r@.working_state_timer == now,
    {
        Buffer {
            package_info: PackageInfo { pid, pkg },
            frametime_state: FrameTimeState {
                frametimes: std::collections::VecDeque::new(),
                additional_frametime: 0,
                avg_time_long: 0,
                avg_time_short: 0,
                current_fps_long: FrameRate::Unmeasured,
                current_fps_short: FrameRate::Unmeasured,
            },
            target_fps_state: TargetFpsState::new(target_fps_config),
            state: BufferState::new(now),
        }
    }

    /// The average frame time over the first `it_takes` frames (all of them
    /// when `None`), the frame in progress included.
    fn calculate_average_frametime(&self, it_takes: Option<usize>) -> (r: u128)
        requires
            average_ok(
                self@.frametimes,
                match it_takes {
                    Some(n) => n as nat,
                    None => self@.frametimes.len(),
                },
            ),
        ensures
            r == average_of(
                self@.frametimes,
                match it_takes {
                    Some(n) => n as nat,
                    None => self@.frametimes.len(),
                },
                self@.additional_frametime,
            ),
    {
        let len = self.frametime_state.frametimes.len();
        let n = match it_takes {
            Some(n) => n,
            None => len,
        };
        let count = if n <= len {
            n
        } else {
            len
        };
        let ghost s = self@.frametimes;
        let mut total: u128 = 0;
        let mut i: usize = 0;
        while i < count
            invariant
                count <= len,
                len == s.len(),
                s == self@.frametimes,
                i <= count,
                total == seq_sum(s.take(i as int)),
                seq_sum(s.take(count as int)) <= DURATION_MAX_NS,
            decreases count - i,
        {
            proof {
                assert(s.take(i + 1).drop_last() =~= s.take(i as int));
                lemma_seq_sum_prefix_le(s.take(count as int), i + 1);
                assert(s.take(count as int).take(i + 1) =~= s.take(i + 1));
            }
            total = total + self.frametime_state.frametimes[i] as u128;
            i += 1;
        }
        let extra = self.frametime_state.additional_frametime as u128;
        let total = if total > DURATION_MAX_NS - extra {
            DURATION_MAX_NS
        } else {
            total + extra
        };
        if count == 0 {
            0
        } else {
            total / (count as u128)
        }
    }

    /// The target frame rate that the candidates give at the current long rate.
    pub fn target_fps(&self) -> (r: Option<u32>)
        ensures
            r == pick_target(self@.target_fps_config, self@.current_fps_long),
    {
        let list = self.target_fps_state.target_fps_config.to_list();
        if list.len() == 0 {
            return None;
        }
        let first = list[0];
        let below = if first >= 10 {
            first - 10
        } else {
            0
        };
        let floor: u32 = if below >= 10 {
            below
        } else {
            10
        };
        let rate = self.frametime_state.current_fps_long;
        if rate_below(rate, floor as u64) {
            return None;
        }
        let mut i: usize = 0;
        while i < list.len()
            invariant
                i <= list@.len(),
                list@ == self@.target_fps_config,
                list@.len() > 0,
                rate == self@.current_fps_long,
                pick_target(list@, rate) == pick_from(list@, rate, 0),
                pick_from(list@, rate, 0) == pick_from(list@, rate, i as int),
            decreases list@.len() - i,
        {
            if rate_at_most(rate, list[i] as u64 + 3) {
                return Some(list[i]);
            }
            i += 1;
        }
        Some(list[list.len() - 1])
    }

    /// Recomputes the long and short averages and rates.
    pub fn calculate_current_fps(&mut self)
        requires
            average_ok(old(self)@.frametimes, old(self)@.frametimes.len()),
        ensures
            final(self)@ == calc_current_fps(old(self)@),
    {
        let avg_long = self.calculate_average_frametime(None);
        self.frametime_state.avg_time_long = avg_long;
        self.frametime_state.current_fps_long = FrameRate::Period(avg_long);
        let t = self.target_fps();
        let short = match t {
            Some(t) => t as usize,
            None => self.frametime_state.frametimes.len(),
        };
        proof {
            lemma_average_ok_smaller(self@.frametimes, self@.frametimes.len(), short as nat);
        }
        let avg_short = self.calculate_average_frametime(Some(short));
        proof {
            if t is None {
                assert(short as nat == self@.frametimes.len());
            }
        }
        self.frametime_state.avg_time_short = avg_short;
        self.frametime_state.current_fps_short = FrameRate::Period(avg_short);
    }

    /// Re-picks the target rate; returns the new target to announce, if any.
    pub fn calculate_target_fps(&mut self, now: u64) -> (r: Option<u32>)
        ensures
            (final(self)@, r) == calc_target_fps(old(self)@, now),
    {
        let new_target_fps = self.target_fps();
        if self.target_fps_state.target_fps != new_target_fps || new_target_fps.is_none() {
            self.frametime_state.frametimes.clear();
            self.target_fps_state.target_fps = new_target_fps;
            self.unusable(now);
            new_target_fps
        } else {
            None
        }
    }

    /// Becomes usable once it has been unusable for a second.
    pub fn try_usable(&mut self, now: u64)
        ensures
            final(self)@ == try_usable_spec(old(self)@, now),
    {
        if self.state.working_state == BufferWorkingState::Unusable && elapsed_exec(
            now,
            self.state.working_state_timer,
        ) >= USABLE_DELAY_NS {
            self.state.working_state = BufferWorkingState::Usable;
        }
    }

    /// Becomes unusable from `now` on.
    pub fn unusable(&mut self, now: u64)
        ensures
            final(self)@ == mark_unusable(old(self)@, now),
    {
        self.state.working_state = BufferWorkingState::Unusable;
        self.state.working_state_timer = now;
    }

    fn try_calculate(&mut self, now: u64) -> (r: Option<u32>)
        requires
            calculation_due(old(self)@, now) ==> average_ok(
                old(self)@.frametimes,
                old(self)@.frametimes.len(),
            ),
        ensures
            (final(self)@, r) == try_calculate_spec(old(self)@, now),
    {
        if elapsed_exec(now, self.state.calculate_timer) >= CALCULATE_INTERVAL_NS {
            self.state.calculate_timer = now;
            self.calculate_current_fps();
            self.calculate_target_fps(now)
        } else {
            None
        }
    }

    /// Takes in the frame time `d` that arrived at `now`; returns the new
    /// target rate to announce, if the target changed.
    pub fn push_frametime(&mut self, d: u64, now: u64) -> (r: Option<u32>)
        requires
            old(self)@.target_fps != Some(0u32),
            calculation_due(old(self)@, now) ==> average_ok(
                pushed_frametimes(old(self)@, d),
                pushed_frametimes(old(self)@, d).len(),
            ),
        ensures
            (final(self)@, r) == push_spec(old(self)@, d, now),
    {
        self.frametime_state.additional_frametime = 0;
        self.state.last_update = now;
        let cap: u64 = match self.target_fps_state.target_fps {
            Some(t) => t as u64 * 5,
            None => 144 * 5,
        };
        let ghost v0 = self@;
        let ghost dropped = v0.frametimes.len() >= frame_cap(v0.target_fps);
        let ghost keep: nat = if dropped {
            (frame_cap(v0.target_fps) - 1) as nat
        } else {
            v0.frametimes.len()
        };
        while self.frametime_state.frametimes.len() as u64 >= cap
            invariant
                cap == frame_cap(v0.target_fps),
                cap > 0,
                dropped == (v0.frametimes.len() >= cap),
                keep == (if dropped {
                    (cap - 1) as nat
                } else {
                    v0.frametimes.len()
                }),
                self@.frametimes == v0.frametimes.take(self@.frametimes.len() as int),
                keep <= self@.frametimes.len() <= v0.frametimes.len(),
                self@.frametimes.len() < v0.frametimes.len() ==> dropped,
                self@.frametimes.len() < v0.frametimes.len() ==> self@ == try_usable_spec(
                    BufferView { frametimes: self@.frametimes, ..v0 },
                    now,
                ),
                self@.frametimes.len() == v0.frametimes.len() ==> self@ == v0,
            decreases self@.frametimes.len(),
        {
            let ghost before = self@;
            self.frametime_state.frametimes.pop_back();
            proof {
                assert(self@.frametimes =~= v0.frametimes.take(self@.frametimes.len() as int));
            }
            self.try_usable(now);
        }
        proof {
            assert(self@.frametimes.len() == keep);
        }
        self.frametime_state.frametimes.push_front(d);
        proof {
            assert(self@.frametimes =~= pushed_frametimes(v0, d));
        }
        self.try_calculate(now)
    }

    /// Counts the time since the last frame as a frame in progress.
    pub fn additional_frametime(&mut self, now: u64) -> (r: Option<u32>)
        requires
            calculation_due(old(self)@, now) ==> average_ok(
                old(self)@.frametimes,
                old(self)@.frametimes.len(),
            ),
        ensures
            (final(self)@, r) == additional_spec(old(self)@, now),
    {
        self.frametime_state.additional_frametime = elapsed_exec(now, self.state.last_update);
        self.try_calculate(now)
    }
}

pub proof fn lemma_seq_sum_push_front(d: u64, s: Seq<u64>)
    ensures
        seq_sum(seq![d] + s) == d + seq_sum(s),
    decreases s.len(),
{
    if s.len() > 0 {
        lemma_seq_sum_push_front(d, s.drop_last());
        assert((seq![d] + s).drop_last() =~= seq![d] + s.drop_last());
        assert((seq![d] + s).last() == s.last());
    } else {
        assert(seq![d] + s =~= seq![d]);
        assert(seq![d].drop_last() =~= Seq::<u64>::empty());
        assert(seq_sum(Seq::<u64>::empty()) == 0);
        assert(seq![d].last() == d);
    }
}

pub proof fn lemma_seq_sum_bound(s: Seq<u64>)
    ensures
        seq_sum(s) <= s.len() * (u64::MAX as nat),
    decreases s.len(),
{
    if s.len() > 0 {
        lemma_seq_sum_bound(s.drop_last());
        assert(seq_sum(s) <= (s.len() - 1) * (u64::MAX as nat) + u64::MAX) by (nonlinear_arith)
            requires
                seq_sum(s) == seq_sum(s.drop_last()) + (s.last() as nat),
                seq_sum(s.drop_last()) <= s.drop_last().len() * (u64::MAX as nat),
                s.drop_last().len() == s.len() - 1,
                s.last() <= u64::MAX,
        ;
        assert((s.len() - 1) * (u64::MAX as nat) + u64::MAX == s.len() * (u64::MAX as nat)) by (nonlinear_arith);
    }
}

/// Sum of the first `k` frame times, `k` at most `u32::MAX`.
fn prefix_sum(q: &std::collections::VecDeque<u64>, k: usize) -> (r: u128)
    requires
        k <= q@.len(),
        k <= u32::MAX,
    ensures
        r == seq_sum(q@.take(k as int)),
{
    let mut total: u128 = 0;
    let mut i: usize = 0;
    while i < k
        invariant
            i <= k <= q@.len(),
            k <= u32::MAX,
            total == seq_sum(q@.take(i as int)),
        decreases k - i,
    {
        proof {
            assert(q@.take(i + 1).drop_last() =~= q@.take(i as int));
            lemma_seq_sum_bound(q@.take(i + 1));
            assert((i + 1) * (u64::MAX as nat) < u128::MAX) by (nonlinear_arith)
                requires
                    i + 1 <= u32::MAX,
            ;
        }
        total = total + q[i] as u128;
        i += 1;
    }
    total
}

impl Buffer {
    /// Whether averaging over the first `n` frame times stays in range.
    pub fn average_ok_exec(&self, n: usize) -> (r: bool)
        ensures
            r == average_ok(self@.frametimes, n as nat),
    {
        let len = self.frametime_state.frametimes.len();
        let count = if n <= len {
            n
        } else {
            len
        };
        if count > u32::MAX as usize {
            return false;
        }
        prefix_sum(&self.frametime_state.frametimes, count) <= DURATION_MAX_NS
    }

    /// Whether `push_frametime(d, now)` may be called: the push neither loops
    /// forever on a zero target nor overflows a duration when averaging.
    pub fn push_ok(&self, d: u64, now: u64) -> (r: bool)
        ensures
            r == (self@.target_fps != Some(0u32) && (calculation_due(self@, now) ==> average_ok(
                pushed_frametimes(self@, d),
                pushed_frametimes(self@, d).len(),
            ))),
    {
        if self.target_fps_state.target_fps == Some(0u32) {
            return false;
        }
        if elapsed_exec(now, self.state.calculate_timer) < CALCULATE_INTERVAL_NS {
            return true;
        }
        let len = self.frametime_state.frametimes.len();
        let cap: u64 = match self.target_fps_state.target_fps {
            Some(t) => t as u64 * 5,
            None => 144 * 5,
        };
        let keep: usize = if len as u64 >= cap {
            (cap - 1) as usize
        } else {
            len
        };
        let ghost p = pushed_frametimes(self@, d);
        assert(p.len() == keep + 1);
        assert(p.take(p.len() as int) =~= p);
        if keep >= u32::MAX as usize {
            return false;
        }
        proof {
            lemma_seq_sum_push_front(d, self@.frametimes.take(keep as int));
        }
        let rest = prefix_sum(&self.frametime_state.frametimes, keep);
        proof {
            lemma_seq_sum_bound(self@.frametimes.take(keep as int));
            assert(keep * (u64::MAX as nat) < u128::MAX - u64::MAX) by (nonlinear_arith)
                requires
                    keep < u32::MAX,
            ;
        }
        rest + d as u128 <= DURATION_MAX_NS
    }

    /// Whether `additional_frametime(now)` may be called without overflowing
    /// a duration when averaging.
    pub fn additional_ok(&self, now: u64) -> (r: bool)
        ensures
            r == (calculation_due(self@, now) ==> average_ok(
                self@.frametimes,
                self@.frametimes.len(),
            )),
    {
        if elapsed_exec(now, self.state.calculate_timer) < CALCULATE_INTERVAL_NS {
            return true;
        }
        self.average_ok_exec(self.frametime_state.frametimes.len())
    }
}

/// Time from `since` to `now`, zero when `now` is not later.
pub fn elapsed_exec(now: u64, since: u64) -> (r: u64)
    ensures
        r == elapsed(now, since),
{
    if now >= since {
        now - since
    } else {
        0
    }
}

/// Whether the rate is below `k` frames per second.
pub fn rate_below(r: FrameRate, k: u64) -> (b: bool)
    ensures
        b == rate_lt(r, k as int),
{
    match r {
        FrameRate::Unmeasured => 0 < k,
        FrameRate::Period(p) => p > 0 && mul_exceeds(k as u128, p, NANOS_PER_SEC as u128),
    }
}

/// Whether the rate is at most `k` frames per second.
pub fn rate_at_most(r: FrameRate, k: u64) -> (b: bool)
    ensures
        b == rate_le(r, k as int),
{
    match r {
        FrameRate::Unmeasured => true,
        FrameRate::Period(p) => p > 0 && mul_exceeds(k as u128, p, (NANOS_PER_SEC - 1) as u128),
    }
}

/// Whether `a * b > c`, without overflow.
fn mul_exceeds(a: u128, b: u128, c: u128) -> (r: bool)
    ensures
        r == (a * b > c),
{
    if a == 0 || b == 0 {
        proof {
            assert(a * b == 0) by (nonlinear_arith)
                requires
                    a == 0 || b == 0,
            ;
        }
        false
    } else if b > c / a {
        proof {
            assert(a * b > c) by (nonlinear_arith)
                requires
                    a > 0,
                    b > c / a,
            ;
        }
        true
    } else {
        proof {
            assert(a * b <= c) by (nonlinear_arith)
                requires
                    a > 0,
                    b <= c / a,
            ;
        }
        a * b > c
    }
}

} // verus!
