use fas_rs::cleaner::Cleaner;
use fas_rs::config::Config;
use fas_rs::config_data::{Config as Flags, ConfigData, ModeConfig, TemperatureThreshold};
use fas_rs::error::{Error, SchedulerPart};
use fas_rs::extra_policy::{
    remove_extra_policy, set_extra_policy_abs, set_extra_policy_rel, set_policy_freq_offset,
    AbsRangeBound, ExtraPolicy, ExtraPolicyMap, IgnoreMap, RelRangeBound,
};
use fas_rs::frame_acc::Acc;
use fas_rs::pid::pid_control_inner;
use fas_rs::scheduler::Scheduler;
use fas_rs::sort::sort_u32;
use fas_rs::table::Table;
use fas_rs::thermal::{is_core_zone_type, Thermal};

const MS: u128 = 1_000_000;

#[test]
fn pid_slow_frames_raise_frequency() {
    // avg 20 ms against a 16.666667 ms target: 40 * 3_333_333 + 2 * 99_999_990 = 333_333_300,
    // divided by 400000 and cut toward zero.
    let r = pid_control_inner(20 * MS, 20 * MS, 16_666_667, 600 * MS, 1200 * MS);
    assert_eq!(r, 833);
}

#[test]
fn pid_fast_frames_lower_frequency() {
    // 40 * -6_666_667 + 160 * -200_000_010 = -32_266_668_280; / 400000 toward zero.
    let r = pid_control_inner(10 * MS, 10 * MS, 16_666_667, 300 * MS, 600 * MS);
    assert_eq!(r, -80666);
}

#[test]
fn pid_derivative_counts_only_in_the_direction_of_the_error() {
    // Slow: a rising trend (2 * last 30 > last 60) adds to the correction.
    let base = pid_control_inner(20 * MS, 20 * MS, 20 * MS, 600 * MS, 1200 * MS);
    assert_eq!(base, 0);
    let slow_rising = pid_control_inner(21 * MS, 20 * MS, 20 * MS, 600 * MS, 800 * MS);
    // 2 * (600 - 600) ms + (1200 - 800) ms = 400_000_000 / 400000 = 1000
    assert_eq!(slow_rising, 1000);
    // Fast: the same rising trend is dropped.
    let fast_rising = pid_control_inner(19 * MS, 20 * MS, 20 * MS, 600 * MS, 800 * MS);
    assert_eq!(fast_rising, 0);
}

#[test]
fn pid_on_target_is_zero() {
    assert_eq!(pid_control_inner(16 * MS, 16 * MS, 16 * MS, 480 * MS, 960 * MS), 0);
}

#[test]
fn core_zone_types() {
    assert!(is_core_zone_type("cpu-0-0-usr"));
    assert!(is_core_zone_type("soc_max"));
    assert!(is_core_zone_type("mtktscpu"));
    assert!(!is_core_zone_type("battery"));
    assert!(!is_core_zone_type("cpu"));
}

#[test]
fn thermal_steps_offset_by_threshold() {
    let mut t = Thermal::new();
    t.temperature_update(&vec![Some(" 45000\n".to_string()), None, Some("52000".to_string())]);
    // 52000 is above 50000: one tenth down.
    assert_eq!(t.target_fps_offset(TemperatureThreshold::Temp(50000)), -1);
    assert_eq!(t.target_fps_offset(TemperatureThreshold::Temp(50000)), -2);
    // Not above 60000: one tenth up.
    assert_eq!(t.target_fps_offset(TemperatureThreshold::Temp(60000)), -1);
    // Disabled never lowers.
    assert_eq!(t.target_fps_offset(TemperatureThreshold::Disabled), 0);
    assert_eq!(t.target_fps_offset(TemperatureThreshold::Disabled), 1);
}

#[test]
fn thermal_unreadable_text_reads_zero() {
    let mut t = Thermal::new();
    t.temperature_update(&vec![Some("hot".to_string())]);
    assert_eq!(t.target_fps_offset(TemperatureThreshold::Temp(0)), 1);
}

#[test]
fn acc_timeout_is_mean_excess_over_a_second() {
    let mut a = Acc::new();
    a.acc(1_500_000_000);
    a.acc(1_200_000_000);
    assert_eq!(a.timeout_dur(), 350_000_000);
    a.reset();
    a.acc(900_000_000);
    assert_eq!(a.timeout_dur(), 0);
}

#[test]
fn extra_policy_map_starts_unbounded() {
    let m = ExtraPolicyMap::new(&vec![0, 4, 7, 4]);
    assert_eq!(m.get(0), Some(ExtraPolicy::NoBound));
    assert_eq!(m.get(4), Some(ExtraPolicy::NoBound));
    assert_eq!(m.get(7), Some(ExtraPolicy::NoBound));
    assert_eq!(m.get(3), None);
}

#[test]
fn extra_policy_abs_and_rel_bounds() {
    let mut m = ExtraPolicyMap::new(&vec![0, 4, 7]);
    set_extra_policy_abs(&mut m, 4, Some(800_000), None);
    assert_eq!(
        m.get(4),
        Some(ExtraPolicy::AbsRangeBound(AbsRangeBound { min: Some(800_000), max: None }))
    );
    set_extra_policy_rel(&mut m, 7, 4, None, Some(-200_000));
    assert_eq!(
        m.get(7),
        Some(ExtraPolicy::RelRangeBound(RelRangeBound { min: None, max: Some(-200_000), rel_to: 4 }))
    );
    assert_eq!(m.get(0), Some(ExtraPolicy::NoBound));
    // Neither bound given removes the bound.
    set_extra_policy_abs(&mut m, 4, None, None);
    assert_eq!(m.get(4), Some(ExtraPolicy::NoBound));
    set_extra_policy_rel(&mut m, 7, 0, None, None);
    assert_eq!(m.get(7), Some(ExtraPolicy::NoBound));
}

#[test]
fn extra_policy_remove() {
    let mut m = ExtraPolicyMap::new(&vec![0, 4]);
    set_extra_policy_abs(&mut m, 0, Some(1), Some(2));
    remove_extra_policy(&mut m, 0);
    assert_eq!(m.get(0), Some(ExtraPolicy::NoBound));
}

#[test]
fn freq_offset_warns_once() {
    let mut warned = false;
    assert!(set_policy_freq_offset(&mut warned, 0, 100));
    assert!(warned);
    assert!(!set_policy_freq_offset(&mut warned, 4, -100));
    assert!(warned);
}

#[test]
fn ignore_map_marks_policies() {
    let mut m = IgnoreMap::new(&vec![0, 4, 0]);
    assert_eq!(m.is_ignored(0), Some(false));
    assert_eq!(m.is_ignored(4), Some(false));
    assert_eq!(m.is_ignored(7), None);
    m.set_ignore_policy(4, true);
    assert_eq!(m.is_ignored(4), Some(true));
    assert_eq!(m.is_ignored(0), Some(false));
    m.set_ignore_policy(4, false);
    assert_eq!(m.is_ignored(4), Some(false));
}

#[test]
fn cleaner_saves_read_values_and_restores_them() {
    let targets = Cleaner::lock_targets();
    assert_eq!(targets.len(), 7);
    assert_eq!(
        targets[0],
        ("/sys/module/mtk_fpsgo/parameters/perfmgr_enable".to_string(), "0".to_string())
    );
    assert_eq!(targets[5], ("/sys/module/migt/parameters/glk_disable".to_string(), "1".to_string()));

    let mut c = Cleaner::new();
    assert!(c.undo_cleanup().is_empty());
    let mut last: Vec<Option<String>> = vec![None; 7];
    last[0] = Some("1".to_string());
    last[6] = Some("0".to_string());
    let locked = c.cleanup(last);
    assert_eq!(locked, targets);
    let mut restore = c.undo_cleanup();
    restore.sort();
    assert_eq!(
        restore,
        vec![
            ("/proc/game_opt/disable_cpufreq_limit".to_string(), "0".to_string()),
            ("/sys/module/mtk_fpsgo/parameters/perfmgr_enable".to_string(), "1".to_string()),
        ]
    );
}

fn config() -> Config {
    let m = ModeConfig { core_temp_thresh: TemperatureThreshold::Disabled };
    Config::from_data(ConfigData {
        config: Flags { keep_std: true, scene_game_list: false },
        game_list: Table::new(),
        scene_game_list: vec![],
        powersave: m,
        balance: m,
        performance: m,
        fast: m,
    })
}

#[test]
fn scheduler_needs_both_parts() {
    let s: Scheduler<u8> = Scheduler::new();
    assert_eq!(s.into_parts().err(), Some(Error::SchedulerMissing(SchedulerPart::Config)));
    let s: Scheduler<u8> = Scheduler::new().controller(3);
    assert_eq!(s.into_parts().err(), Some(Error::SchedulerMissing(SchedulerPart::Config)));
    let s: Scheduler<u8> = Scheduler::new().config(config());
    assert_eq!(s.into_parts().err(), Some(Error::SchedulerMissing(SchedulerPart::Controller)));
    let s: Scheduler<u8> = Scheduler::new().config(config()).controller(3);
    let (_, c) = s.into_parts().ok().unwrap();
    assert_eq!(c, 3);
}

#[test]
fn sort_orders_and_keeps_items() {
    let mut v = vec![120, 30, 60, 30, 144];
    sort_u32(&mut v);
    assert_eq!(v, vec![30, 30, 60, 120, 144]);
    let mut e: Vec<u32> = vec![];
    sort_u32(&mut e);
    assert!(e.is_empty());
}
