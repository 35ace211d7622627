use fas_rs::buffer::BufferWorkingState;
use fas_rs::config::Config;
use fas_rs::config_data::{Config as Flags, ConfigData, GameEntry, ModeConfig, TemperatureThreshold};
use fas_rs::looper::{Action, FasData, LooperCore, State};
use fas_rs::mode::Mode;
use fas_rs::table::Table;

const S: u64 = 1_000_000_000;

fn config() -> Config {
    let mut game_list = Table::new();
    game_list.insert("com.game".to_string(), GameEntry::Array(vec![Some(60)]));
    let m = ModeConfig { core_temp_thresh: TemperatureThreshold::Disabled };
    Config::from_data(ConfigData {
        config: Flags { keep_std: true, scene_game_list: false },
        game_list,
        scene_game_list: vec![],
        powersave: m,
        balance: m,
        performance: m,
        fast: m,
    })
}

#[test]
fn working_starts_after_the_delay() {
    let mut l = LooperCore::new(0);
    assert_eq!(l.enable_fas(0), vec![Action::StartFas]);
    assert_eq!(l.working_state, State::Waiting);
    assert_eq!(l.enable_fas(3 * S), vec![]);
    assert_eq!(l.working_state, State::Waiting);
    assert_eq!(
        l.enable_fas(3 * S + 1),
        vec![Action::Cleanup, Action::ResetTargetFpsOffset, Action::InitGame]
    );
    assert_eq!(l.working_state, State::Working);
    assert_eq!(l.enable_fas(10 * S), vec![]);
}

#[test]
fn stopping_undoes_what_working_did() {
    let mut l = LooperCore::new(0);
    l.enable_fas(0);
    assert_eq!(l.disable_fas(), vec![]);
    assert_eq!(l.working_state, State::NotWorking);
    l.enable_fas(0);
    l.enable_fas(4 * S);
    assert_eq!(l.disable_fas(), vec![Action::UndoCleanup, Action::InitDefault, Action::StopFas]);
    assert_eq!(l.disable_fas(), vec![]);
}

#[test]
fn mode_switch_reinitializes_a_working_controller() {
    let mut l = LooperCore::new(0);
    assert_eq!(l.switch_mode(Some(Mode::Fast)), vec![]);
    assert_eq!(l.mode, Mode::Fast);
    l.enable_fas(0);
    l.enable_fas(4 * S);
    assert_eq!(l.switch_mode(Some(Mode::Fast)), vec![]);
    assert_eq!(l.switch_mode(None), vec![]);
    assert_eq!(l.switch_mode(Some(Mode::Balance)), vec![Action::InitGame]);
}

#[test]
fn frames_of_a_game_in_front_create_a_buffer() {
    let c = config();
    let mut l = LooperCore::new(0);
    let pids = vec![7];
    let data = FasData::from_binder(7, 16_000_000);
    assert!(l.needs_process_name(data, &pids));
    let (st, acts) = l.buffer_update(data, &pids, 0, Some("com.game".to_string()), &c);
    assert_eq!(st, Some(BufferWorkingState::Unusable));
    assert_eq!(acts, vec![Action::LoadFas(7, "com.game".to_string())]);
    assert!(l.buffer.is_some());
    assert!(!l.needs_process_name(data, &pids));
    // Frames of processes not in front, or empty ones, are ignored.
    assert!(l.update_ok(FasData::from_binder(8, 16_000_000), &pids, 0));
    assert!(l.update_ok(FasData::from_binder(7, 0), &pids, 0));
    let (st, acts) = l.buffer_update(FasData::from_binder(8, 16_000_000), &pids, 0, None, &c);
    assert_eq!((st, acts), (None, vec![]));
    let (st, _) = l.buffer_update(FasData::from_binder(7, 0), &pids, 0, None, &c);
    assert_eq!(st, None);
    // Later frames go to the buffer; the first calculation picks the target.
    let (st, acts) = l.buffer_update(data, &pids, S / 5, None, &c);
    assert_eq!(st, Some(BufferWorkingState::Unusable));
    assert_eq!(acts, vec![Action::TargetFpsChange(60, "com.game".to_string())]);
}

#[test]
fn frames_of_a_non_game_are_ignored() {
    let c = config();
    let mut l = LooperCore::new(0);
    let pids = vec![7];
    let data = FasData::from_binder(7, 16_000_000);
    let (st, acts) = l.buffer_update(data, &pids, 0, Some("com.tool".to_string()), &c);
    assert_eq!((st, acts), (None, vec![]));
    assert!(l.buffer.is_none());
}

#[test]
fn leaving_the_front_unloads_the_game() {
    let c = config();
    let mut l = LooperCore::new(0);
    let data = FasData::from_binder(7, 16_000_000);
    l.buffer_update(data, &vec![7], 0, Some("com.game".to_string()), &c);
    assert_eq!(l.retain_topapp(&vec![7], 0), vec![Action::StartFas]);
    assert_eq!(l.retain_topapp(&vec![7], 4 * S), vec![Action::Cleanup, Action::ResetTargetFpsOffset, Action::InitGame]);
    assert_eq!(
        l.retain_topapp(&vec![9], 5 * S),
        vec![
            Action::DetachApp(7),
            Action::UnloadFas(7, "com.game".to_string()),
            Action::UndoCleanup,
            Action::InitDefault,
            Action::StopFas
        ]
    );
    assert!(l.buffer.is_none());
}

#[test]
fn idle_steps() {
    let c = config();
    let mut l = LooperCore::new(0);
    assert!(l.idle_ok(0));
    assert_eq!(l.on_idle(0), vec![]);
    let data = FasData::from_binder(7, 16_000_000);
    l.buffer_update(data, &vec![7], 0, Some("com.game".to_string()), &c);
    // An unusable buffer counts toward an analyzer restart and stops acting.
    assert_eq!(l.on_idle(S / 20), vec![]);
    assert_eq!(l.restart_counter, 1);
    assert_eq!(l.on_idle(2 * S), vec![Action::RestartAnalyzer]);
    assert_eq!(l.restart_counter, 0);
    assert_eq!(l.after_update(Some(BufferWorkingState::Usable)), vec![]);
    assert_eq!(l.after_update(None), vec![]);
}

#[test]
fn policy_runs_only_while_working_with_a_buffer() {
    let c = config();
    let mut l = LooperCore::new(0);
    assert_eq!(l.policy_actions(), vec![]);
    l.buffer_update(FasData::from_binder(7, 1), &vec![7], 0, Some("com.game".to_string()), &c);
    l.enable_fas(0);
    l.enable_fas(4 * S);
    assert_eq!(l.policy_actions(), vec![Action::RunPolicy]);
    assert_eq!(l.after_update(Some(BufferWorkingState::Usable)), vec![Action::RunPolicy]);
    assert_eq!(
        l.after_update(Some(BufferWorkingState::Unusable)),
        vec![Action::UndoCleanup, Action::InitDefault, Action::StopFas]
    );
}

#[test]
fn binder_frame_times_are_reinterpreted() {
    assert_eq!(FasData::from_binder(1, -1).frametime, u64::MAX);
    assert_eq!(FasData::from_binder(1, 5).frametime, 5);
}
