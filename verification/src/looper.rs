//! The scheduler's decisions: when frame-aware scheduling starts and stops,
//! which buffer it follows, and what the program around it is to do.
//!
//! Each step takes the current state and what happened, changes the state,
//! and returns the actions to perform, in order.
use vstd::prelude::*;

use crate::buffer::{
    additional_spec, average_ok, calculation_due, elapsed, elapsed_exec, push_spec,
    pushed_frametimes, Buffer, BufferView, BufferWorkingState, FrameRate,
};
use crate::config::{fps_list, target_fps_matches, Config, TargetFps};
use crate::mode::Mode;

verus! {

/// How long the scheduler waits before it starts acting on a game (3 s).
pub const DELAY_TIME_NS: u64 = 3_000_000_000;

/// How long the frame analyzer is left alone between restarts (1 s).
pub const RESTART_INTERVAL_NS: u64 = 1_000_000_000;

/// A frame time reported for a process.
#[derive(Debug, Clone, Copy, PartialEq, Eq, Structural)]
pub struct FasData {
    pub pid: i32,
    /// Nanoseconds.
    pub frametime: u64,
}

impl FasData {
    /// A frame time as the binder interface reports it, in signed
    /// nanoseconds; the value is reinterpreted as unsigned.
    pub fn from_binder(pid: i32, frametime_ns: i64) -> (r: FasData)
        ensures
            r.pid == pid,
            r.frametime == frametime_ns as u64,
    {
        FasData { pid, frametime: frametime_ns as u64 }
    }
}

/// Whether the scheduler is acting on a game.
#[derive(Debug, Clone, Copy, PartialEq, Eq, Structural)]
pub enum State {
    NotWorking,
    /// A game is in front; acting starts after the delay.
    Waiting,
    Working,
}

/// What the program around the scheduler is to do.
#[derive(Debug, PartialEq, Eq)]
pub enum Action {
    /// Tell the plugins that scheduling is about to start.
    StartFas,
    /// Tell the plugins that scheduling stopped.
    StopFas,
    /// Tell the plugins that a game with this pid and package is followed.
    LoadFas(i32, String),
    /// Tell the plugins that the game is no longer followed.
    UnloadFas(i32, String),
    /// Tell the plugins the game's new target rate.
    TargetFpsChange(u32, String),
    /// Lock the vendor frame-pacing switches off.
    Cleanup,
    /// Restore the vendor frame-pacing switches.
    UndoCleanup,
    /// Put the CPU controller into its game setting.
    InitGame,
    /// Put the CPU controller back to its default setting.
    InitDefault,
    /// Reset the controller's frame-rate offset to zero.
    ResetTargetFpsOffset,
    /// Stop analyzing this process's frames.
    DetachApp(i32),
    /// Detach all processes from the analyzer and attach the games in front again.
    RestartAnalyzer,
    /// Run the frequency policy on the current buffer.
    RunPolicy,
}

/// An action as plain values.
pub enum ActionView {
    StartFas,
    StopFas,
    LoadFas(i32, Seq<char>),
    UnloadFas(i32, Seq<char>),
    TargetFpsChange(u32, Seq<char>),
    Cleanup,
    UndoCleanup,
    InitGame,
    InitDefault,
    ResetTargetFpsOffset,
    DetachApp(i32),
    RestartAnalyzer,
    RunPolicy,
}

impl View for Action {
    type V = ActionView;

    open spec fn view(&self) -> ActionView {
        match self {
            Action::StartFas => ActionView::StartFas,
            Action::StopFas => ActionView::StopFas,
            Action::LoadFas(p, s) => ActionView::LoadFas(*p, s@),
            Action::UnloadFas(p, s) => ActionView::UnloadFas(*p, s@),
            Action::TargetFpsChange(t, s) => ActionView::TargetFpsChange(*t, s@),
            Action::Cleanup => ActionView::Cleanup,
            Action::UndoCleanup => ActionView::UndoCleanup,
            Action::InitGame => ActionView::InitGame,
            Action::InitDefault => ActionView::InitDefault,
            Action::ResetTargetFpsOffset => ActionView::ResetTargetFpsOffset,
            Action::DetachApp(p) => ActionView::DetachApp(*p),
            Action::RestartAnalyzer => ActionView::RestartAnalyzer,
            Action::RunPolicy => ActionView::RunPolicy,
        }
    }
}

/// The actions of a list, as plain values.
pub open spec fn actions_view(a: Seq<Action>) -> Seq<ActionView> {
    a.map_values(|x: Action| x@)
}

/// The scheduler's state as plain values.
pub struct LooperView {
    pub mode: Mode,
    pub working_state: State,
    pub delay_timer: u64,
    pub buffer: Option<BufferView>,
    pub restart_counter: u8,
    pub restart_timer: u64,
}

/// Stop acting: from `Working` the vendor switches are restored, the
/// controller reset and the plugins told; from `Waiting` nothing was started.
pub open spec fn disable_spec(v: LooperView) -> (LooperView, Seq<ActionView>) {
    match v.working_state {
        State::Working => (
            LooperView { working_state: State::NotWorking, ..v },
            seq![ActionView::UndoCleanup, ActionView::InitDefault, ActionView::StopFas],
        ),
        State::Waiting => (LooperView { working_state: State::NotWorking, ..v }, seq![]),
        State::NotWorking => (v, seq![]),
    }
}

/// Start acting: first wait, telling the plugins; after the delay, lock the
/// vendor switches, reset the offset and set the controller up for the game.
pub open spec fn enable_spec(v: LooperView, now: u64) -> (LooperView, Seq<ActionView>) {
    match v.working_state {
        State::NotWorking => (
            LooperView { working_state: State::Waiting, delay_timer: now, ..v },
            seq![ActionView::StartFas],
        ),
        State::Waiting => if elapsed(now, v.delay_timer) > DELAY_TIME_NS {
            (
                LooperView { working_state: State::Working, ..v },
                seq![ActionView::Cleanup, ActionView::ResetTargetFpsOffset, ActionView::InitGame],
            )
        } else {
            (v, seq![])
        },
        State::Working => (v, seq![]),
    }
}

/// Drops the buffer when its process left the front, then stops or starts
/// acting according to whether a buffer remains.
pub open spec fn retain_spec(v: LooperView, pids: Seq<i32>, now: u64) -> (
    LooperView,
    Seq<ActionView>,
) {
    let (v1, a1) = match v.buffer {
        Some(b) => if !pids.contains(b.pid) {
            (
                LooperView { buffer: None, ..v },
                seq![ActionView::DetachApp(b.pid), ActionView::UnloadFas(b.pid, b.pkg)],
            )
        } else {
            (v, seq![])
        },
        None => (v, seq![]),
    };
    let (v2, a2) = if v1.buffer is None {
        disable_spec(v1)
    } else {
        enable_spec(v1, now)
    };
    (v2, a1 + a2)
}

/// Follows a new mode; a working scheduler sets the controller up again.
pub open spec fn switch_mode_spec(v: LooperView, new_mode: Option<Mode>) -> (
    LooperView,
    Seq<ActionView>,
) {
    match new_mode {
        Some(m) => if m != v.mode {
            (
                LooperView { mode: m, ..v },
                if v.working_state == State::Working {
                    seq![ActionView::InitGame]
                } else {
                    seq![]
                },
            )
        } else {
            (v, seq![])
        },
        None => (v, seq![]),
    }
}

/// Restarts the analyzer on every second call, at most once a second.
pub open spec fn restart_spec(v: LooperView, now: u64) -> (LooperView, Seq<ActionView>) {
    if v.restart_counter == 1 {
        if elapsed(now, v.restart_timer) >= RESTART_INTERVAL_NS {
            (
                LooperView { restart_timer: now, restart_counter: 0, ..v },
                seq![ActionView::RestartAnalyzer],
            )
        } else {
            (v, seq![])
        }
    } else {
        (LooperView { restart_counter: (v.restart_counter + 1) as u8, ..v }, seq![])
    }
}

/// The announcement of a new target rate, if there is one.
pub open spec fn target_change_actions(t: Option<u32>, pkg: Seq<char>) -> Seq<ActionView> {
    match t {
        Some(x) => seq![ActionView::TargetFpsChange(x, pkg)],
        None => seq![],
    }
}

/// The buffer a game starts with, for `data` of `pkg` with target rates `list`.
pub open spec fn fresh_buffer(list: Seq<u32>, pid: i32, pkg: Seq<char>, now: u64) -> BufferView {
    BufferView {
        pid,
        pkg,
        frametimes: Seq::empty(),
        additional_frametime: 0,
        avg_time_long: 0,
        avg_time_short: 0,
        current_fps_long: FrameRate::Unmeasured,
        current_fps_short: FrameRate::Unmeasured,
        target_fps: None,
        target_fps_config: list,
        last_update: now,
        working_state: BufferWorkingState::Unusable,
        calculate_timer: now,
        working_state_timer: now,
    }
}

/// A frame time is taken only from a process in front and only when nonzero.
pub open spec fn frame_accepted(data: FasData, pids: Seq<i32>) -> bool {
    pids.contains(data.pid) && data.frametime != 0
}

/// The frame time goes to the existing buffer.
pub open spec fn update_existing_spec(v: LooperView, b: BufferView, data: FasData, now: u64) -> (
    LooperView,
    Seq<ActionView>,
) {
    let (nb, t) = push_spec(b, data.frametime, now);
    (LooperView { buffer: Some(nb), ..v }, target_change_actions(t, b.pkg))
}

/// The policy runs only while working and following a buffer.
pub open spec fn policy_spec(v: LooperView) -> Seq<ActionView> {
    if v.working_state == State::Working && v.buffer is Some {
        seq![ActionView::RunPolicy]
    } else {
        seq![]
    }
}

/// After a frame was taken: a usable buffer runs the policy, an unusable one
/// stops acting.
pub open spec fn after_update_spec(v: LooperView, s: Option<BufferWorkingState>) -> (
    LooperView,
    Seq<ActionView>,
) {
    match s {
        Some(BufferWorkingState::Usable) => (v, policy_spec(v)),
        Some(BufferWorkingState::Unusable) => disable_spec(v),
        None => (v, seq![]),
    }
}

/// No frame arrived in time: the frame in progress counts; an unusable
/// buffer restarts the analyzer and stops acting, a usable one runs the policy.
pub open spec fn idle_spec(v: LooperView, now: u64) -> (LooperView, Seq<ActionView>) {
    match v.buffer {
        None => (v, seq![]),
        Some(b) => {
            let (nb, t) = additional_spec(b, now);
            let v1 = LooperView { buffer: Some(nb), ..v };
            let a1 = target_change_actions(t, b.pkg);
            if nb.working_state == BufferWorkingState::Unusable {
                let (v2, a2) = restart_spec(v1, now);
                let (v3, a3) = disable_spec(v2);
                (v3, a1 + a2 + a3)
            } else {
                (v1, a1 + policy_spec(v1))
            }
        },
    }
}

/// The part of the scheduler's state that the library decides on.
pub struct LooperCore {
    pub mode: Mode,
    pub working_state: State,
    pub delay_timer: u64,
    pub buffer: Option<Buffer>,
    pub restart_counter: u8,
    pub restart_timer: u64,
}

impl View for LooperCore {
    type V = LooperView;

    open spec fn view(&self) -> LooperView {
        LooperView {
            mode: self.mode,
            working_state: self.working_state,
            delay_timer: self.delay_timer,
            buffer: match self.buffer {
                Some(b) => Some(b@),
                None => None,
            },
            restart_counter: self.restart_counter,
            restart_timer: self.restart_timer,
        }
    }
}

impl LooperCore {
    /// The restart counter alternates between zero and one.
    pub open spec fn wf(&self) -> bool {
        self.restart_counter <= 1
    }

    /// Balanced mode, not working, no buffer, every clock at `now`.
    pub fn new(now: u64) -> (r: Self)
        ensures
            r.wf(),
            r@ == (LooperView {
                mode: Mode::Balance,
                working_state: State::NotWorking,
                delay_timer: now,
                buffer: None,
                restart_counter: 0,
                restart_timer: now,
            }),
    {
        LooperCore {
            mode: Mode::Balance,
            working_state: State::NotWorking,
            delay_timer: now,
            buffer: None,
            restart_counter: 0,
            restart_timer: now,
        }
    }

    /// Stops acting.
    pub fn disable_fas(&mut self) -> (r: Vec<Action>)
        ensures
            (final(self)@, actions_view(r@)) == disable_spec(old(self)@),
    {
        let mut r: Vec<Action> = Vec::new();
        match self.working_state {
            State::Working => {
                self.working_state = State::NotWorking;
                r.push(Action::UndoCleanup);
                r.push(Action::InitDefault);
                r.push(Action::StopFas);
            },
            State::Waiting => {
                self.working_state = State::NotWorking;
            },
            State::NotWorking => {},
        }
        assert(actions_view(r@) =~= disable_spec(old(self)@).1);
        r
    }

    /// Starts acting, after the delay.
    pub fn enable_fas(&mut self, now: u64) -> (r: Vec<Action>)
        ensures
            (final(self)@, actions_view(r@)) == enable_spec(old(self)@, now),
    {
        let mut r: Vec<Action> = Vec::new();
        match self.working_state {
            State::NotWorking => {
                self.working_state = State::Waiting;
                self.delay_timer = now;
                r.push(Action::StartFas);
            },
            State::Waiting => {
                if elapsed_exec(now, self.delay_timer) > DELAY_TIME_NS {
                    self.working_state = State::Working;
                    r.push(Action::Cleanup);
                    r.push(Action::ResetTargetFpsOffset);
                    r.push(Action::InitGame);
                }
            },
            State::Working => {},
        }
        assert(actions_view(r@) =~= enable_spec(old(self)@, now).1);
        r
    }

    /// Drops the buffer when its process is no longer in front, then stops or
    /// starts acting.
    pub fn retain_topapp(&mut self, topapp_pids: &Vec<i32>, now: u64) -> (r: Vec<Action>)
        ensures
            (final(self)@, actions_view(r@)) == retain_spec(old(self)@, topapp_pids@, now),
    {
        let mut r: Vec<Action> = Vec::new();
        let drop = match &self.buffer {
            Some(b) => !vec_contains(topapp_pids, b.package_info.pid),
            None => false,
        };
        if drop {
            let b = self.buffer.take().unwrap();
            let pid = b.package_info.pid;
            r.push(Action::DetachApp(pid));
            r.push(Action::UnloadFas(pid, b.package_info.pkg));
        }
        let ghost mid = self@;
        let ghost a1 = actions_view(r@);
        let more = if self.buffer.is_none() {
            self.disable_fas()
        } else {
            self.enable_fas(now)
        };
        let mut more = more;
        r.append(&mut more);
        assert(actions_view(r@) =~= a1 + (if mid.buffer is None {
            disable_spec(mid)
        } else {
            enable_spec(mid, now)
        }).1);
        r
    }

    /// Follows the mode the mode node gives, when it gave one.
    pub fn switch_mode(&mut self, new_mode: Option<Mode>) -> (r: Vec<Action>)
        ensures
            (final(self)@, actions_view(r@)) == switch_mode_spec(old(self)@, new_mode),
    {
        let mut r: Vec<Action> = Vec::new();
        match new_mode {
            Some(m) => {
                if self.mode != m {
                    self.mode = m;
                    if self.working_state == State::Working {
                        r.push(Action::InitGame);
                    }
                }
            },
            None => {},
        }
        assert(actions_view(r@) =~= switch_mode_spec(old(self)@, new_mode).1);
        r
    }

    /// Asks for an analyzer restart on every second call, at most once a second.
    pub fn restart_analyzer(&mut self, now: u64) -> (r: Vec<Action>)
        requires
            old(self).restart_counter <= 1,
        ensures
            (final(self)@, actions_view(r@)) == restart_spec(old(self)@, now),
            final(self).restart_counter <= 1,
    {
        let mut r: Vec<Action> = Vec::new();
        if self.restart_counter == 1 {
            if elapsed_exec(now, self.restart_timer) >= RESTART_INTERVAL_NS {
                self.restart_timer = now;
                self.restart_counter = 0;
                r.push(Action::RestartAnalyzer);
            }
        } else {
            self.restart_counter = self.restart_counter + 1;
        }
        assert(actions_view(r@) =~= restart_spec(old(self)@, now).1);
        r
    }

    /// Whether a new frame time needs the name of its process: it does when
    /// the frame is taken and no buffer exists yet.
    pub fn needs_process_name(&self, data: FasData, topapp_pids: &Vec<i32>) -> (r: bool)
        ensures
            r == (frame_accepted(data, topapp_pids@) && self.buffer is None),
    {
        vec_contains(topapp_pids, data.pid) && data.frametime != 0 && self.buffer.is_none()
    }

    /// Whether `buffer_update` may be called with `data` at `now`.
    pub fn update_ok(&self, data: FasData, topapp_pids: &Vec<i32>, now: u64) -> (r: bool)
        ensures
            r == (frame_accepted(data, topapp_pids@) ==> match self@.buffer {
                Some(b) => b.target_fps != Some(0u32) && (calculation_due(b, now) ==> average_ok(
                    pushed_frametimes(b, data.frametime),
                    pushed_frametimes(b, data.frametime).len(),
                )),
                None => true,
            }),
    {
        if !vec_contains(topapp_pids, data.pid) || data.frametime == 0 {
            return true;
        }
        match &self.buffer {
            Some(b) => b.push_ok(data.frametime, now),
            None => true,
        }
    }

    /// Takes in a frame time reported at `now`. `process_name` is the name of
    /// the reporting process when it could be read (needed only when no
    /// buffer exists). Returns the buffer's working state when the frame was
    /// taken, and the actions to perform.
    pub fn buffer_update(
        &mut self,
        data: FasData,
        topapp_pids: &Vec<i32>,
        now: u64,
        process_name: Option<String>,
        config: &Config,
    ) -> (r: (Option<BufferWorkingState>, Vec<Action>))
        requires
            config.wf(),
            frame_accepted(data, topapp_pids@) ==> match old(self)@.buffer {
                Some(b) => b.target_fps != Some(0u32) && (calculation_due(b, now) ==> average_ok(
                    pushed_frametimes(b, data.frametime),
                    pushed_frametimes(b, data.frametime).len(),
                )),
                None => true,
            },
        ensures
            !frame_accepted(data, topapp_pids@) ==> final(self)@ == old(self)@ && r.0 is None
                && r.1@.len() == 0,
            frame_accepted(data, topapp_pids@) ==> match old(self)@.buffer {
                Some(b) => {
                    &&& (final(self)@, actions_view(r.1@)) == update_existing_spec(
                        old(self)@,
                        b,
                        data,
                        now,
                    )
                    &&& r.0 == Some(final(self)@.buffer.unwrap().working_state)
                },
                None => match process_name {
                    None => final(self)@ == old(self)@ && r.0 is None && r.1@.len() == 0,
                    Some(name) => if target_fps_matches(config.data(), name@, None) {
                        final(self)@ == old(self)@ && r.0 is None && r.1@.len() == 0
                    } else {
                        exists|t: TargetFps|
                            #![trigger target_fps_matches(config.data(), name@, Some(t))]
                            {
                                &&& target_fps_matches(config.data(), name@, Some(t))
                                &&& final(self)@ == LooperView {
                                    buffer: Some(
                                        push_spec(
                                            fresh_buffer(fps_list(t), data.pid, name@, now),
                                            data.frametime,
                                            now,
                                        ).0,
                                    ),
                                    ..old(self)@
                                }
                                &&& actions_view(r.1@) == seq![
                                    ActionView::LoadFas(data.pid, name@),
                                ] + target_change_actions(
                                    push_spec(
                                        fresh_buffer(fps_list(t), data.pid, name@, now),
                                        data.frametime,
                                        now,
                                    ).1,
                                    name@,
                                )
                                &&& r.0 == Some(BufferWorkingState::Unusable)
                            }
                    },
                },
            },
    {
        let mut r: Vec<Action> = Vec::new();
        if !vec_contains(topapp_pids, data.pid) || data.frametime == 0 {
            return (None, r);
        }
        if self.buffer.is_some() {
            let mut b = self.buffer.take().unwrap();
            let ghost bv = b@;
            let t = b.push_frametime(data.frametime, now);
            match t {
                Some(x) => r.push(Action::TargetFpsChange(x, b.package_info.pkg.clone())),
                None => {},
            }
            let ws = b.state.working_state;
            self.buffer = Some(b);
            assert(actions_view(r@) =~= target_change_actions(t, bv.pkg));
            return (Some(ws), r);
        }
        let pkg = match process_name {
            Some(p) => p,
            None => return (None, r),
        };
        let target = match config.target_fps(pkg.as_str()) {
            Some(t) => t,
            None => return (None, r),
        };
        let ghost t_g = target;
        r.push(Action::LoadFas(data.pid, pkg.clone()));
        let mut b = Buffer::new(target, data.pid, pkg, now);
        let ghost fresh = b@;
        assert(fresh.frametimes =~= Seq::<u64>::empty());
        assert(fresh == fresh_buffer(fps_list(t_g), data.pid, fresh.pkg, now));
        let t = b.push_frametime(data.frametime, now);
        match t {
            Some(x) => r.push(Action::TargetFpsChange(x, b.package_info.pkg.clone())),
            None => {},
        }
        self.buffer = Some(b);
        assert(actions_view(r@) =~= seq![ActionView::LoadFas(data.pid, fresh.pkg)]
            + target_change_actions(t, fresh.pkg));
        (Some(BufferWorkingState::Unusable), r)
    }

    /// The policy runs only while working and following a buffer.
    pub fn policy_actions(&self) -> (r: Vec<Action>)
        ensures
            actions_view(r@) == if self.working_state == State::Working && self.buffer is Some {
                seq![ActionView::RunPolicy]
            } else {
                seq![]
            },
    {
        let mut r: Vec<Action> = Vec::new();
        if self.working_state == State::Working && self.buffer.is_some() {
            r.push(Action::RunPolicy);
        }
        assert(actions_view(r@) =~= (if self.working_state == State::Working
            && self.buffer is Some {
            seq![ActionView::RunPolicy]
        } else {
            seq![]
        }));
        r
    }
    /// What follows a frame update: the policy for a usable buffer, stopping
    /// for an unusable one.
    pub fn after_update(&mut self, s: Option<BufferWorkingState>) -> (r: Vec<Action>)
        ensures
            (final(self)@, actions_view(r@)) == after_update_spec(old(self)@, s),
            final(self).restart_counter == old(self).restart_counter,
    {
        match s {
            Some(BufferWorkingState::Usable) => self.policy_actions(),
            Some(BufferWorkingState::Unusable) => self.disable_fas(),
            None => Vec::new(),
        }
    }

    /// Whether `on_idle(now)` may be called.
    pub fn idle_ok(&self, now: u64) -> (r: bool)
        ensures
            r == match self@.buffer {
                Some(b) => calculation_due(b, now) ==> average_ok(b.frametimes, b.frametimes.len()),
                None => true,
            },
    {
        match &self.buffer {
            Some(b) => b.additional_ok(now),
            None => true,
        }
    }

    /// No frame arrived in time.
    pub fn on_idle(&mut self, now: u64) -> (r: Vec<Action>)
        requires
            old(self).wf(),
            match old(self)@.buffer {
                Some(b) => calculation_due(b, now) ==> average_ok(b.frametimes, b.frametimes.len()),
                None => true,
            },
        ensures
            final(self).wf(),
            (final(self)@, actions_view(r@)) == idle_spec(old(self)@, now),
    {
        if self.buffer.is_none() {
            let r: Vec<Action> = Vec::new();
            assert(actions_view(r@) =~= seq![]);
            return r;
        }
        let mut b = self.buffer.take().unwrap();
        let ghost bv = b@;
        let t = b.additional_frametime(now);
        let mut r: Vec<Action> = Vec::new();
        match t {
            Some(x) => r.push(Action::TargetFpsChange(x, b.package_info.pkg.clone())),
            None => {},
        }
        let ws = b.state.working_state;
        self.buffer = Some(b);
        let ghost a1 = actions_view(r@);
        assert(a1 =~= target_change_actions(t, bv.pkg));
        match ws {
            BufferWorkingState::Unusable => {
                let ghost v1 = self@;
                let mut a2 = self.restart_analyzer(now);
                let ghost v2 = self@;
                let ghost g2 = actions_view(a2@);
                let mut a3 = self.disable_fas();
                let ghost g3 = actions_view(a3@);
                r.append(&mut a2);
                r.append(&mut a3);
                assert(actions_view(r@) =~= a1 + g2 + g3);
            },
            BufferWorkingState::Usable => {
                let mut a2 = self.policy_actions();
                let ghost g2 = actions_view(a2@);
                r.append(&mut a2);
                assert(actions_view(r@) =~= a1 + g2);
            },
        }
        r
    }
}

/// Whether `x` is among `v`.
pub fn vec_contains(v: &Vec<i32>, x: i32) -> (r: bool)
    ensures
        r == v@.contains(x),
{
    let mut i: usize = 0;
    while i < v.len()
        invariant
            i <= v@.len(),
            forall|k: int| 0 <= k < i ==> v@[k] != x,
        decreases v@.len() - i,
    {
        if v[i] == x {
            return true;
        }
        i += 1;
    }
    false
}

} // verus!
