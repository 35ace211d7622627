//! Properties that hold across the scheduler's operations.
use vstd::prelude::*;

use crate::buffer::{
    elapsed, frame_cap, pick_from, pick_target, push_spec, pushed_frametimes, BufferView, FrameRate,
};
use crate::config::{merged_map, merged_tables, TablesView};
use crate::looper::{
    after_update_spec, disable_spec, enable_spec, idle_spec, restart_spec, retain_spec,
    switch_mode_spec, ActionView, LooperView, State, DELAY_TIME_NS,
};
use crate::buffer::{additional_spec, calculation_due, BufferWorkingState};
use crate::config::{integers_of, package_of, target_fps_matches, TargetFps};
use crate::config_data::{ConfigData, GameEntry};
use crate::extension::{callback_function, event_function, ApiEvent, CallBack};
use crate::mode::Mode;
use crate::sort::sorted;
use crate::thermal::{max_reading_from, reading_value};

verus! {

/// The vendor switches are locked exactly when a step enters the working
/// state, and restored exactly when it leaves it.
pub open spec fn cleaner_follows_working(old: LooperView, new: LooperView, acts: Seq<ActionView>) -> bool {
    &&& acts.contains(ActionView::Cleanup) <==> (old.working_state != State::Working
        && new.working_state == State::Working)
    &&& acts.contains(ActionView::UndoCleanup) <==> (old.working_state == State::Working
        && new.working_state != State::Working)
}

proof fn lemma_seq3_contains(a: ActionView, b: ActionView, c: ActionView, x: ActionView)
    ensures
        seq![a, b, c].contains(x) <==> (x == a || x == b || x == c),
{
    if x == a {
        assert(seq![a, b, c][0] == x);
    }
    if x == b {
        assert(seq![a, b, c][1] == x);
    }
    if x == c {
        assert(seq![a, b, c][2] == x);
    }
}

proof fn lemma_seq2_contains(a: ActionView, b: ActionView, x: ActionView)
    ensures
        seq![a, b].contains(x) <==> (x == a || x == b),
{
    if x == a {
        assert(seq![a, b][0] == x);
    }
    if x == b {
        assert(seq![a, b][1] == x);
    }
}

proof fn lemma_seq1_contains(a: ActionView, x: ActionView)
    ensures
        seq![a].contains(x) <==> x == a,
{
    if x == a {
        assert(seq![a][0] == x);
    }
}

proof fn lemma_concat_contains(a: Seq<ActionView>, b: Seq<ActionView>, x: ActionView)
    ensures
        (a + b).contains(x) <==> a.contains(x) || b.contains(x),
{
    if a.contains(x) {
        let i = choose|i: int| 0 <= i < a.len() && a[i] == x;
        assert((a + b)[i] == x);
    }
    if b.contains(x) {
        let i = choose|i: int| 0 <= i < b.len() && b[i] == x;
        assert((a + b)[a.len() + i] == x);
    }
    if (a + b).contains(x) {
        let i = choose|i: int| 0 <= i < (a + b).len() && (a + b)[i] == x;
        if i < a.len() {
            assert(a[i] == x);
        } else {
            assert(b[i - a.len()] == x);
        }
    }
}

/// Stopping locks nothing; it restores the vendor switches exactly when it
/// leaves the working state.
pub proof fn lemma_disable_follows_working(v: LooperView)
    ensures
        cleaner_follows_working(v, disable_spec(v).0, disable_spec(v).1),
{
    lemma_seq3_contains(ActionView::UndoCleanup, ActionView::InitDefault, ActionView::StopFas, ActionView::Cleanup);
    lemma_seq3_contains(ActionView::UndoCleanup, ActionView::InitDefault, ActionView::StopFas, ActionView::UndoCleanup);
}

/// Starting restores nothing; it locks the vendor switches exactly when it
/// enters the working state.
pub proof fn lemma_enable_follows_working(v: LooperView, now: u64)
    ensures
        cleaner_follows_working(v, enable_spec(v, now).0, enable_spec(v, now).1),
{
    lemma_seq1_contains(ActionView::StartFas, ActionView::Cleanup);
    lemma_seq1_contains(ActionView::StartFas, ActionView::UndoCleanup);
    lemma_seq3_contains(ActionView::Cleanup, ActionView::ResetTargetFpsOffset, ActionView::InitGame, ActionView::Cleanup);
    lemma_seq3_contains(ActionView::Cleanup, ActionView::ResetTargetFpsOffset, ActionView::InitGame, ActionView::UndoCleanup);
}

/// Keeping or dropping the buffer of the app in front pairs locking and
/// restoring the vendor switches with entering and leaving the working state.
pub proof fn lemma_retain_follows_working(v: LooperView, pids: Seq<i32>, now: u64)
    ensures
        cleaner_follows_working(v, retain_spec(v, pids, now).0, retain_spec(v, pids, now).1),
{
    let (v1, a1) = match v.buffer {
        Some(b) => if !pids.contains(b.pid) {
            (
                LooperView { buffer: None, ..v },
                seq![ActionView::DetachApp(b.pid), ActionView::UnloadFas(b.pid, b.pkg)],
            )
        } else {
            (v, seq![])
        },
        None => (v, seq![]),
    };
    if let Some(b) = v.buffer {
        lemma_seq2_contains(ActionView::DetachApp(b.pid), ActionView::UnloadFas(b.pid, b.pkg), ActionView::Cleanup);
        lemma_seq2_contains(ActionView::DetachApp(b.pid), ActionView::UnloadFas(b.pid, b.pkg), ActionView::UndoCleanup);
    }
    assert(!a1.contains(ActionView::Cleanup) && !a1.contains(ActionView::UndoCleanup));
    let (v2, a2) = if v1.buffer is None {
        disable_spec(v1)
    } else {
        enable_spec(v1, now)
    };
    lemma_disable_follows_working(v1);
    lemma_enable_follows_working(v1, now);
    lemma_concat_contains(a1, a2, ActionView::Cleanup);
    lemma_concat_contains(a1, a2, ActionView::UndoCleanup);
}

/// Following a mode never starts or stops the working state, nor touches
/// the vendor switches.
pub proof fn lemma_switch_mode_follows_working(v: LooperView, m: Option<Mode>)
    ensures
        switch_mode_spec(v, m).0.working_state == v.working_state,
        cleaner_follows_working(v, switch_mode_spec(v, m).0, switch_mode_spec(v, m).1),
{
    lemma_seq1_contains(ActionView::InitGame, ActionView::Cleanup);
    lemma_seq1_contains(ActionView::InitGame, ActionView::UndoCleanup);
}

/// Handling a taken frame pairs the vendor switches with the working state.
pub proof fn lemma_after_update_follows_working(v: LooperView, s: Option<BufferWorkingState>)
    ensures
        cleaner_follows_working(v, after_update_spec(v, s).0, after_update_spec(v, s).1),
{
    lemma_disable_follows_working(v);
    lemma_seq1_contains(ActionView::RunPolicy, ActionView::Cleanup);
    lemma_seq1_contains(ActionView::RunPolicy, ActionView::UndoCleanup);
}

/// Handling a missing frame pairs the vendor switches with the working state.
pub proof fn lemma_idle_follows_working(v: LooperView, now: u64)
    ensures
        cleaner_follows_working(v, idle_spec(v, now).0, idle_spec(v, now).1),
{
    lemma_seq1_contains(ActionView::RunPolicy, ActionView::Cleanup);
    lemma_seq1_contains(ActionView::RunPolicy, ActionView::UndoCleanup);
    lemma_seq1_contains(ActionView::RestartAnalyzer, ActionView::Cleanup);
    lemma_seq1_contains(ActionView::RestartAnalyzer, ActionView::UndoCleanup);
    if let Some(b) = v.buffer {
        let (nb, t) = crate::buffer::additional_spec(b, now);
        let v1 = LooperView { buffer: Some(nb), ..v };
        let a1 = crate::looper::target_change_actions(t, b.pkg);
        if let Some(x) = t {
            lemma_seq1_contains(ActionView::TargetFpsChange(x, b.pkg), ActionView::Cleanup);
            lemma_seq1_contains(ActionView::TargetFpsChange(x, b.pkg), ActionView::UndoCleanup);
        }
        assert(!a1.contains(ActionView::Cleanup) && !a1.contains(ActionView::UndoCleanup));
        if nb.working_state == BufferWorkingState::Unusable {
            let (v2, a2) = restart_spec(v1, now);
            let (v3, a3) = disable_spec(v2);
            lemma_disable_follows_working(v2);
            lemma_concat_contains(a1, a2, ActionView::Cleanup);
            lemma_concat_contains(a1, a2, ActionView::UndoCleanup);
            lemma_concat_contains(a1 + a2, a3, ActionView::Cleanup);
            lemma_concat_contains(a1 + a2, a3, ActionView::UndoCleanup);
        } else {
            lemma_concat_contains(a1, crate::looper::policy_spec(v1), ActionView::Cleanup);
            lemma_concat_contains(a1, crate::looper::policy_spec(v1), ActionView::UndoCleanup);
        }
    }
}

/// The working state is entered only from waiting, and only once the delay
/// has passed since waiting began.
pub proof fn lemma_working_only_after_delay(v: LooperView, now: u64)
    ensures
        enable_spec(v, now).0.working_state == State::Working && v.working_state != State::Working
            ==> v.working_state == State::Waiting && elapsed(now, v.delay_timer) > DELAY_TIME_NS,
{
}

/// Stopping twice is stopping once: the second time changes and asks nothing.
pub proof fn lemma_disable_idempotent(v: LooperView)
    ensures
        disable_spec(disable_spec(v).0).0 == disable_spec(v).0,
        disable_spec(disable_spec(v).0).1 == Seq::<ActionView>::empty(),
{
    assert(disable_spec(disable_spec(v).0).1 =~= Seq::<ActionView>::empty());
}

/// The picked target is one of the candidates.
pub proof fn lemma_pick_is_candidate(list: Seq<u32>, r: FrameRate)
    ensures
        pick_target(list, r) matches Some(t) ==> list.contains(t),
{
    if list.len() > 0 {
        lemma_pick_from_is_candidate(list, r, 0);
    }
}

proof fn lemma_pick_from_is_candidate(list: Seq<u32>, r: FrameRate, i: int)
    requires
        list.len() > 0,
        0 <= i,
    ensures
        pick_from(list, r, i) matches Some(t) ==> list.contains(t),
    decreases list.len() - i,
{
    if i >= list.len() {
        assert(list[list.len() - 1] == list.last());
    } else if crate::buffer::rate_le(r, list[i] + 3) {
        assert(list[i] == list[i]);
    } else {
        lemma_pick_from_is_candidate(list, r, i + 1);
    }
}

/// A push keeps at most as many frame times as the target allows, the new
/// one first unless the target changed and the times were dropped.
pub proof fn lemma_push_bounded(v: BufferView, d: u64, now: u64)
    requires
        frame_cap(v.target_fps) > 0,
    ensures
        push_spec(v, d, now).0.frametimes.len() <= frame_cap(v.target_fps),
        push_spec(v, d, now).0.frametimes.len() == 0 || push_spec(v, d, now).0.frametimes[0] == d,
{
    let p = pushed_frametimes(v, d);
    assert(p[0] == d);
}

/// Merging keeps exactly the standard keys, and takes the local value of
/// every key both have.
pub proof fn lemma_merge_keeps_standard_keys<V>(s: Map<Seq<char>, V>, l: Map<Seq<char>, V>, k: Seq<char>)
    ensures
        merged_map(s, l).dom().contains(k) <==> s.dom().contains(k),
        s.dom().contains(k) && l.dom().contains(k) ==> merged_map(s, l)[k] == l[k],
        s.dom().contains(k) && !l.dom().contains(k) ==> merged_map(s, l)[k] == s[k],
{
}

/// Overlaying the result with the same local table again changes nothing.
pub proof fn lemma_merge_idempotent<V>(s: Map<Seq<char>, V>, l: Map<Seq<char>, V>)
    ensures
        merged_map(merged_map(s, l), l) == merged_map(s, l),
{
    assert(merged_map(merged_map(s, l), l) =~= merged_map(s, l));
}

/// A local table that holds the standard one's keys with the standard values
/// merges into the standard table unchanged.
pub proof fn lemma_merge_of_standard<V>(s: Map<Seq<char>, V>)
    ensures
        merged_map(s, s) == s,
{
    assert(merged_map(s, s) =~= s);
}

/// Taking a merged table as the local one and merging it into the same
/// standard table again gives it back unchanged.
pub proof fn lemma_remerge_table<V>(s: Map<Seq<char>, V>, l: Map<Seq<char>, V>)
    ensures
        merged_map(s, merged_map(s, l)) == merged_map(s, l),
{
    assert(merged_map(s, merged_map(s, l)) =~= merged_map(s, l));
}

/// Merging an already merged profile again with the same standard profile
/// changes nothing. `keep_again` is the merged profile's own `keep_std`
/// switch: it is false whenever the local one was, for the merged settings
/// then carry the local switch.
pub proof fn lemma_remerge_stable<V>(local: TablesView<V>, std: TablesView<V>, keep: bool, keep_again: bool)
    requires
        !keep ==> !keep_again,
    ensures
        merged_tables(merged_tables(local, std, keep), std, keep_again) == merged_tables(local, std, keep),
{
    let m = merged_tables(local, std, keep);
    let m2 = merged_tables(m, std, keep_again);
    if keep {
        if !keep_again {
            lemma_merge_of_standard(std.config);
            lemma_merge_of_standard(std.powersave);
            lemma_merge_of_standard(std.balance);
            lemma_merge_of_standard(std.performance);
            lemma_merge_of_standard(std.fast);
        }
    } else {
        lemma_remerge_table(std.config, local.config);
        lemma_remerge_table(std.powersave, local.powersave);
        lemma_remerge_table(std.balance, local.balance);
        lemma_remerge_table(std.performance, local.performance);
        lemma_remerge_table(std.fast, local.fast);
    }
    assert(m2.config == m.config);
    assert(m2.game_list == m.game_list);
    assert(m2.powersave == m.powersave);
    assert(m2.balance == m.balance);
    assert(m2.performance == m.performance);
    assert(m2.fast == m.fast);
}

/// While working, a missing frame on a buffer that stays usable once the
/// frame in progress is counted runs the frequency policy, and keeps working.
pub proof fn lemma_idle_runs_policy(v: LooperView, now: u64)
    requires
        v.working_state == State::Working,
        v.buffer is Some,
        additional_spec(v.buffer.unwrap(), now).0.working_state == BufferWorkingState::Usable,
    ensures
        idle_spec(v, now).1.contains(ActionView::RunPolicy),
        idle_spec(v, now).0.working_state == State::Working,
{
    let b = v.buffer.unwrap();
    let (nb, t) = additional_spec(b, now);
    let v1 = LooperView { buffer: Some(nb), ..v };
    let a1 = crate::looper::target_change_actions(t, b.pkg);
    lemma_seq1_contains(ActionView::RunPolicy, ActionView::RunPolicy);
    lemma_concat_contains(a1, crate::looper::policy_spec(v1), ActionView::RunPolicy);
}

/// While working on a usable buffer, a missing frame between two
/// recalculations runs the frequency policy, just as a taken frame would.
pub proof fn lemma_idle_between_calculations_runs_policy(v: LooperView, now: u64)
    requires
        v.working_state == State::Working,
        v.buffer is Some,
        v.buffer.unwrap().working_state == BufferWorkingState::Usable,
        !calculation_due(
            BufferView { additional_frametime: elapsed(now, v.buffer.unwrap().last_update) as u64, ..v.buffer.unwrap() },
            now,
        ),
    ensures
        idle_spec(v, now).1.contains(ActionView::RunPolicy),
        after_update_spec(v, Some(BufferWorkingState::Usable)).1.contains(ActionView::RunPolicy),
{
    lemma_idle_runs_policy(v, now);
    lemma_seq1_contains(ActionView::RunPolicy, ActionView::RunPolicy);
}

/// When the game list has the package, its entry alone decides the target
/// rates: whatever the Scene app lists, the answer is the same.
pub proof fn lemma_game_list_decides(d1: ConfigData, d2: ConfigData, pkg: Seq<char>, r: Option<TargetFps>)
    requires
        d1.game_list@ == d2.game_list@,
        d1.game_list@.dom().contains(package_of(pkg)),
        target_fps_matches(d1, pkg, r),
    ensures
        target_fps_matches(d2, pkg, r),
{
}

/// An integer entry in the game list gives exactly that rate.
pub proof fn lemma_integer_entry_rate(d: ConfigData, pkg: Seq<char>, r: Option<TargetFps>, i: i64)
    requires
        d.game_list@.dom().contains(package_of(pkg)),
        d.game_list@[package_of(pkg)] == GameEntry::Integer(i),
        target_fps_matches(d, pkg, r),
    ensures
        r == Some(TargetFps::Value(i as u32)),
{
}

/// A list entry in the game list gives its integer rates, ascending, and no
/// others, whatever the Scene app lists.
pub proof fn lemma_list_entry_rates(d: ConfigData, pkg: Seq<char>, r: Option<TargetFps>, a: Vec<Option<i64>>)
    requires
        d.game_list@.dom().contains(package_of(pkg)),
        d.game_list@[package_of(pkg)] == GameEntry::Array(a),
        target_fps_matches(d, pkg, r),
    ensures
        r matches Some(TargetFps::Array(v)) && sorted(v@) && v@.to_multiset() == integers_of(a@).to_multiset(),
{
}

proof fn lemma_max_reading_from(rs: Seq<Option<Seq<char>>>, i: int)
    requires
        0 <= i,
    ensures
        match max_reading_from(rs, i) {
            Some(m) => {
                &&& forall|j: int| i <= j < rs.len() && (#[trigger] rs[j]) is Some ==> reading_value(rs[j].unwrap()) <= m
                &&& exists|j: int| i <= j < rs.len() && (#[trigger] rs[j]) is Some && reading_value(rs[j].unwrap()) == m
            },
            None => forall|j: int| i <= j < rs.len() ==> (#[trigger] rs[j]) is None,
        },
    decreases rs.len() - i,
{
    if i < rs.len() {
        lemma_max_reading_from(rs, i + 1);
        match max_reading_from(rs, i + 1) {
            Some(m) => {
                let w = choose|j: int| i + 1 <= j < rs.len() && (#[trigger] rs[j]) is Some && reading_value(rs[j].unwrap()) == m;
                assert(rs[w] is Some);
            },
            None => {},
        }
        match rs[i] {
            Some(t) => {},
            None => {},
        }
    }
}

/// The core temperature is the hottest zone's: no readable zone is hotter,
/// and one zone reads exactly that.
pub proof fn lemma_core_temperature_is_hottest(rs: Seq<Option<Seq<char>>>, m: u64)
    requires
        max_reading_from(rs, 0) == Some(m),
    ensures
        forall|j: int| 0 <= j < rs.len() && (#[trigger] rs[j]) is Some ==> reading_value(rs[j].unwrap()) <= m,
        exists|j: int| 0 <= j < rs.len() && (#[trigger] rs[j]) is Some && reading_value(rs[j].unwrap()) == m,
{
    lemma_max_reading_from(rs, 0);
}

/// The position of an event among the kinds of events.
pub open spec fn event_kind(e: ApiEvent) -> int {
    match e {
        ApiEvent::LoadFas(_, _) => 0,
        ApiEvent::UnloadFas(_, _) => 1,
        ApiEvent::StartFas => 2,
        ApiEvent::StopFas => 3,
        ApiEvent::InitCpuFreq => 4,
        ApiEvent::ResetCpuFreq => 5,
        ApiEvent::TargetFpsChange(_, _) => 6,
    }
}

/// Events of different kinds call different plugin functions, and each calls
/// the function named after it.
pub proof fn lemma_event_functions_distinct(a: ApiEvent, b: ApiEvent)
    ensures
        event_kind(a) != event_kind(b) ==> event_function(a) != event_function(b),
        event_kind(a) == event_kind(b) ==> event_function(a) == event_function(b),
        a is LoadFas ==> event_function(a) == "load_fas"@,
        a is UnloadFas ==> event_function(a) == "unload_fas"@,
        a is StartFas ==> event_function(a) == "start_fas"@,
        a is StopFas ==> event_function(a) == "stop_fas"@,
        a is InitCpuFreq ==> event_function(a) == "init_cpu_freq"@,
        a is ResetCpuFreq ==> event_function(a) == "reset_cpu_freq"@,
        a is TargetFpsChange ==> event_function(a) == "target_fps_change"@,
{
    reveal_strlit("load_fas");
    reveal_strlit("unload_fas");
    reveal_strlit("start_fas");
    reveal_strlit("stop_fas");
    reveal_strlit("init_cpu_freq");
    reveal_strlit("reset_cpu_freq");
    reveal_strlit("target_fps_change");
    let fa = event_function(a);
    let fb = event_function(b);
    if event_kind(a) != event_kind(b) {
        if fa.len() == fb.len() {
            assert(fa[0] != fb[0] || fa[1] != fb[1]);
        }
    }
}

/// The position of an event of the first interface among its kinds.
pub open spec fn callback_kind(c: CallBack) -> int {
    match c {
        CallBack::InitFas(_) => 0,
        CallBack::StopFas(_) => 1,
        CallBack::InitCpuFreq => 2,
        CallBack::WriteCpuFreq(_) => 3,
        CallBack::ResetCpuFreq => 4,
    }
}

/// Events of the first interface of different kinds call different plugin
/// functions, each named after its event.
pub proof fn lemma_callback_functions_distinct(a: CallBack, b: CallBack)
    ensures
        callback_kind(a) != callback_kind(b) ==> callback_function(a) != callback_function(b),
        a is InitFas ==> callback_function(a) == "init_fas"@,
        a is StopFas ==> callback_function(a) == "stop_fas"@,
        a is InitCpuFreq ==> callback_function(a) == "init_cpu_freq"@,
        a is WriteCpuFreq ==> callback_function(a) == "write_cpu_freq"@,
        a is ResetCpuFreq ==> callback_function(a) == "reset_cpu_freq"@,
{
    reveal_strlit("init_fas");
    reveal_strlit("stop_fas");
    reveal_strlit("init_cpu_freq");
    reveal_strlit("write_cpu_freq");
    reveal_strlit("reset_cpu_freq");
    let fa = callback_function(a);
    let fb = callback_function(b);
    if callback_kind(a) != callback_kind(b) {
        if fa.len() == fb.len() {
            assert(fa[0] != fb[0]);
        }
    }
}

} // verus!
