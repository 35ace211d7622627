use fas_rs::cleaner::mount_mask_path;
use fas_rs::config::after_failed_read;
use fas_rs::cpu::{bounded_freq, next_freq};
use fas_rs::extra_policy::{AbsRangeBound, ExtraPolicy, RelRangeBound};
use fas_rs::dumpsys::{dump_frametimes, parse_frame_stamp, parse_hex_i32, stamp_fps};
use fas_rs::extension::{
    callback_call, event_call, event_versions_exec, is_lua_script, plugin_hears_exec, ApiEvent,
    CallArgs, CallBack,
};
use fas_rs::props::{needs_setprop, PropRun};
use fas_rs::topapp::{TopAppsWatcher, WindowsInfo};
use fas_rs::xtask::{build_command, format_args, package_path};
use fas_rs::zygisk::{server_allows_hook_exec, Error as HookErr, FrameStamps, ElfRead, SymbolHooker};

const LATENCY: &str = "16666666\n0\t0\t0\n100\t1000000000\t200\n100\t1016666666\t200\n\n100\t1033333333\t200\n100\t1066666666\t200\n";

#[test]
fn latency_dump_gives_newest_gaps_first() {
    assert_eq!(dump_frametimes(LATENCY, 2, 0), Some(vec![33_333_333, 16_666_667]));
    assert_eq!(dump_frametimes(LATENCY, 10, 0), Some(vec![33_333_333, 16_666_667, 16_666_666]));
    assert_eq!(dump_frametimes(LATENCY, 1, 100), Some(vec![33_433_333]));
    assert_eq!(dump_frametimes(LATENCY, 0, 0), Some(vec![]));
}

#[test]
fn latency_dump_skips_header_and_zeros() {
    // Only the header and one stamp: no gap.
    assert_eq!(dump_frametimes("1\n2\n3\t5\t6\n", 5, 0), Some(vec![]));
    // Stamps of zero and far-future stamps are left out.
    let out = "h\nh\n0\t0\t0\n1\t10\t1\n1\t20000000000000000\t1\n1\t25\t1\n";
    assert_eq!(dump_frametimes(out, 5, 0), Some(vec![15]));
}

#[test]
fn latency_dump_refuses_bad_columns_and_backward_stamps() {
    assert_eq!(dump_frametimes("h\nh\n1\tx\t1\n", 5, 0), None);
    assert_eq!(dump_frametimes("h\nh\n1\t30\t1\n1\t20\t1\n", 5, 0), None);
}

#[test]
fn frame_counter_reply() {
    assert_eq!(parse_frame_stamp("Result: Parcel(0000002a    '*...')"), Some(42));
    assert_eq!(parse_frame_stamp("Result: Parcel(7fffffff"), Some(i32::MAX));
    assert_eq!(parse_frame_stamp("Result: Parcel(ffffffff"), None);
    assert_eq!(parse_frame_stamp("Result:"), None);
    assert_eq!(parse_frame_stamp("Result: Parcel"), None);
}

#[test]
fn hex_numbers() {
    let p = |s: &str| parse_hex_i32(&s.chars().collect::<Vec<char>>());
    assert_eq!(p("-1a"), Some(-26));
    assert_eq!(p("+FF"), Some(255));
    assert_eq!(p("-80000000"), Some(i32::MIN));
    assert_eq!(p("80000000"), None);
    assert_eq!(p("-"), None);
    assert_eq!(p("1g"), None);
}

#[test]
fn fps_from_counter_readings() {
    assert_eq!(stamp_fps(100, 160, 1_000_000_000), 60);
    assert_eq!(stamp_fps(0, 90, 1_500_000_000), 60);
    assert_eq!(stamp_fps(0, 59, 1_000_000_000), 59);
    assert_eq!(stamp_fps(160, 100, 1_000_000_000), 0);
    assert_eq!(stamp_fps(5, 5, 0), 0);
    assert_eq!(stamp_fps(0, 10, 0), u32::MAX);
}

#[test]
fn plugin_events() {
    assert_eq!(event_versions_exec(&ApiEvent::StartFas), vec![0, 1, 2, 3, 4]);
    assert_eq!(event_versions_exec(&ApiEvent::TargetFpsChange(60, "g".to_string())), vec![2, 3, 4]);
    assert_eq!(
        event_call(ApiEvent::LoadFas(7, "com.g".to_string())),
        ("load_fas".to_string(), CallArgs::PidPackage(7, "com.g".to_string()))
    );
    assert_eq!(
        event_call(ApiEvent::TargetFpsChange(90, "com.g".to_string())),
        ("target_fps_change".to_string(), CallArgs::FpsPackage(90, "com.g".to_string()))
    );
    assert_eq!(event_call(ApiEvent::ResetCpuFreq), ("reset_cpu_freq".to_string(), CallArgs::Nothing));
    assert_eq!(
        callback_call(CallBack::WriteCpuFreq(1_800_000)),
        ("write_cpu_freq".to_string(), CallArgs::Freq(1_800_000))
    );
    assert_eq!(callback_call(CallBack::InitFas(3)), ("init_fas".to_string(), CallArgs::Pid(3)));
    assert!(plugin_hears_exec(3, 3));
    assert!(!plugin_hears_exec(0, 3));
}

#[test]
fn plugin_files() {
    assert_eq!(is_lua_script("a.lua"), Some(true));
    assert_eq!(is_lua_script("a.b.lua"), Some(true));
    assert_eq!(is_lua_script("a.txt"), Some(false));
    assert_eq!(is_lua_script("a.lua."), Some(false));
    assert_eq!(is_lua_script("noext"), None);
    assert_eq!(is_lua_script(".lua"), None);
    assert_eq!(is_lua_script(".."), None);
}

#[test]
fn hook_needs_the_server() {
    assert!(server_allows_hook_exec(Some("fas-rs\n")));
    assert!(!server_allows_hook_exec(Some("surfaceflinger")));
    assert!(server_allows_hook_exec(None));
}

#[test]
fn frame_times_per_buffer() {
    let mut s = FrameStamps::new();
    assert_eq!(s.frame_time(1, 100), 0);
    assert_eq!(s.frame_time(2, 150), 0);
    assert_eq!(s.frame_time(1, 130), 30);
    assert_eq!(s.frame_time(2, 190), 40);
    assert_eq!(s.frame_time(1, 120), 0);
    assert_eq!(s.frame_time(1, 125), 5);
}

#[test]
fn top_app_cache_refreshes_after_a_second() {
    let mut w = TopAppsWatcher::new(0);
    assert!(w.topapp_pids().is_empty());
    assert!(!w.visible_freeform_window());
    assert!(!w.needs_refresh(1_000_000_000));
    assert!(w.needs_refresh(1_000_000_001));
    w.refresh(WindowsInfo { visible_freeform_window: true, pids: vec![42] }, 1_000_000_001);
    assert_eq!(w.topapp_pids(), &vec![42]);
    assert!(w.visible_freeform_window());
    assert!(!w.needs_refresh(1_500_000_000));
}

#[test]
fn build_and_format_commands() {
    let b = build_command(true, true);
    let tail: Vec<&str> = b.args[6..].iter().map(|s| s.as_str()).collect();
    assert_eq!(
        tail,
        vec!["build", "--target", "aarch64-linux-android", "-Z", "build-std", "-Z", "trim-paths", "--release", "--verbose"]
    );
    assert_eq!(b.envs.len(), 1);
    assert_eq!(package_path(true), "output/fas-rs(release).zip");
    assert_eq!(package_path(false), "output/fas-rs(debug).zip");
    assert_eq!(format_args(false), vec!["fmt".to_string(), "--all".to_string()]);
    assert_eq!(format_args(true).len(), 3);
}

#[test]
fn setprop_fallback() {
    assert!(needs_setprop(PropRun::NotStarted));
    assert!(!needs_setprop(PropRun::WaitFailed));
    assert!(needs_setprop(PropRun::Exited(false)));
    assert!(!needs_setprop(PropRun::Exited(true)));
}

#[test]
fn config_read_gives_up_after_ten_failures() {
    let mut n = 0u8;
    for _ in 0..9 {
        let (m, give_up) = after_failed_read(n);
        assert!(!give_up);
        n = m;
    }
    assert_eq!(after_failed_read(n), (10, true));
}

#[test]
fn frequency_steps_stay_in_range() {
    assert_eq!(next_freq(1_000_000, 200_000, 300_000, 2_000_000), 1_200_000);
    assert_eq!(next_freq(1_000_000, -900_000, 300_000, 2_000_000), 300_000);
    assert_eq!(next_freq(1_900_000, 500_000, 300_000, 2_000_000), 2_000_000);
    assert_eq!(next_freq(isize::MAX, isize::MAX, 0, 10), 10);
    let abs = ExtraPolicy::AbsRangeBound(AbsRangeBound { min: Some(800_000), max: Some(1_500_000) });
    assert_eq!(bounded_freq(600_000, abs, None, 300_000, 2_000_000), 800_000);
    assert_eq!(bounded_freq(1_800_000, abs, None, 300_000, 2_000_000), 1_500_000);
    assert_eq!(bounded_freq(1_000_000, abs, None, 300_000, 2_000_000), 1_000_000);
    let rel = ExtraPolicy::RelRangeBound(RelRangeBound { min: None, max: Some(-100_000), rel_to: 4 });
    assert_eq!(bounded_freq(1_800_000, rel, Some(1_200_000), 300_000, 2_000_000), 1_100_000);
    assert_eq!(bounded_freq(1_800_000, rel, None, 300_000, 2_000_000), 1_800_000);
    assert_eq!(bounded_freq(1_800_000, ExtraPolicy::NoBound, None, 300_000, 2_000_000), 1_800_000);
    // A bound outside the policy's range is held within it.
    let low = ExtraPolicy::AbsRangeBound(AbsRangeBound { min: None, max: Some(100) });
    assert_eq!(bounded_freq(1_000_000, low, None, 300_000, 2_000_000), 300_000);
}

#[test]
fn mount_mask_paths() {
    assert_eq!(mount_mask_path("0"), "/cache/mount_mask_0");
    assert_eq!(mount_mask_path("1"), "/cache/mount_mask_1");
}

#[test]
fn hooker_from_library_read() {
    assert!(matches!(SymbolHooker::from_read(ElfRead::Unparsable), Err(HookErr::LibParse)));
    assert!(matches!(SymbolHooker::from_read(ElfRead::NotElf), Err(HookErr::NotElfLib)));
    assert!(matches!(SymbolHooker::from_read(ElfRead::Elf { is_lib: false, strings: Some(vec![]) }), Err(HookErr::NotElfLib)));
    assert!(matches!(SymbolHooker::from_read(ElfRead::Elf { is_lib: true, strings: None }), Err(HookErr::LibParse)));
    let h = SymbolHooker::from_read(ElfRead::Elf {
        is_lib: true,
        strings: Some(vec!["_ZN7android7Surface11queueBufferEP19ANativeWindowBufferi".to_string()]),
    })
    .ok()
    .unwrap();
    assert_eq!(
        h.find_symbol("android::Surface::queueBuffer"),
        Ok("_ZN7android7Surface11queueBufferEP19ANativeWindowBufferi".to_string())
    );
}
