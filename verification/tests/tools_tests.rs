use fas_rs::packages::{apps_of, parse_installed_packages};
use fas_rs::sensor::{do_fix, fix_frametime, get_cur_view, get_refresh_rate, parse_u32};
use fas_rs::xtask::{
    bin_path, check, lint, make_relative_path, module_dir, path_as_string, temp_dir, webroot_dir,
    PathComponent,
};
use fas_rs::zygisk::{process_name, Error as HookError, SymbolHooker};

fn strings(v: &[&str]) -> Vec<String> {
    v.iter().map(|s| s.to_string()).collect()
}

#[test]
fn packages_from_listing() {
    let out = "package:/data/app/base.apk=com.a\npackage:/system/app/x.apk=com.b \ngarbage\npackage:noequals\n";
    let ps = parse_installed_packages(out);
    assert_eq!(ps.len(), 2);
    assert_eq!(ps[0].package_name, "com.a");
    assert_eq!(ps[0].app_name, "com.a");
    assert_eq!(ps[1].package_name, "com.b");
    let apps = apps_of(ps);
    assert_eq!(apps.len(), 2);
    assert_eq!(apps[1].name, "com.b");
    assert_eq!(apps[1].package_name, "com.b");
}

#[test]
fn package_name_is_after_the_first_equals_sign() {
    let ps = parse_installed_packages("package:/data/app/~~x==/base.apk=com.c");
    assert_eq!(ps.len(), 1);
    assert_eq!(ps[0].package_name, "=/base.apk=com.c");
    assert!(parse_installed_packages("").is_empty());
}

#[test]
fn build_paths() {
    assert_eq!(module_dir(), "module");
    assert_eq!(temp_dir(true), "output/.temp/release");
    assert_eq!(temp_dir(false), "output/.temp/debug");
    assert_eq!(bin_path(false), "target/aarch64-linux-android/debug/fas-rs");
    assert_eq!(bin_path(true), "target/aarch64-linux-android/release/fas-rs");
    assert_eq!(webroot_dir(), "webui/webroot");
}

#[test]
fn check_command_arguments() {
    let c = check(true, false);
    assert_eq!(
        c.args,
        strings(&[
            "+nightly", "ndk", "--platform", "31", "-t", "arm64-v8a", "check", "--target",
            "aarch64-linux-android", "-Z", "build-std", "-Z", "trim-paths", "--release",
        ])
    );
    let env = ("RUSTFLAGS".to_string(), "-C default-linker-libraries".to_string());
    assert_eq!(c.envs, vec![env.clone(), env]);
    let d = check(false, true);
    assert_eq!(d.args.last().unwrap(), "--verbose");
    assert_eq!(d.args.len(), 14);
}

#[test]
fn lint_command_arguments() {
    let (debug, release) = lint(true);
    let expected = strings(&[
        "+nightly", "ndk", "--platform", "31", "-t", "arm64-v8a", "clippy", "--fix",
        "--allow-dirty", "--allow-staged", "--all", "--target", "aarch64-linux-android",
    ]);
    assert_eq!(debug.args, expected);
    let mut with_release = expected.clone();
    with_release.push("--release".to_string());
    assert_eq!(release.args, with_release);
    let (plain, _) = lint(false);
    assert_eq!(plain.args.len(), 9);
}

fn normal(s: &str) -> PathComponent {
    PathComponent::Normal(s.to_string())
}

#[test]
fn relative_paths_and_entry_names() {
    let root = vec![PathComponent::RootDir, normal("a"), normal("b")];
    let cur = vec![PathComponent::RootDir, normal("a"), normal("b"), normal("c"), normal("d.txt")];
    let rel = make_relative_path(&root, &cur);
    assert_eq!(rel.len(), 2);
    assert_eq!(path_as_string(&rel), "c/d.txt");
    let other = vec![PathComponent::RootDir, normal("x"), normal("b"), normal("c")];
    assert!(make_relative_path(&root, &other).is_empty());
    assert!(make_relative_path(&root, &root).is_empty());
    let mixed = vec![PathComponent::CurDir, normal("m"), PathComponent::ParentDir, normal("n")];
    assert_eq!(path_as_string(&mixed), "m/n");
}

#[test]
fn cur_view_prefers_blast_views() {
    let views = "foo\nSurfaceView - com.game/Main#0\n  SurfaceView[com.game/Main](BLAST)#1 \n";
    assert_eq!(get_cur_view(views), Some("SurfaceView[com.game/Main](BLAST)#1".to_string()));
    let plain = "foo\n  SurfaceView - com.game/Main#0\n";
    assert_eq!(get_cur_view(plain), Some("SurfaceView - com.game/Main#0".to_string()));
    assert_eq!(get_cur_view("nothing here"), None);
}

#[test]
fn refresh_rate_from_dump() {
    let dump = "Display 0\n  refresh-rate              : 120.000000 fps\n";
    assert_eq!(get_refresh_rate(dump), Ok(Some(120)));
    assert_eq!(get_refresh_rate("no rate"), Ok(None));
    assert_eq!(get_refresh_rate("refresh-rate : fast"), Err(()));
}

#[test]
fn parse_u32_limits() {
    let c: Vec<char> = "4294967295".chars().collect();
    assert_eq!(parse_u32(&c), Some(u32::MAX));
    let c: Vec<char> = "4294967296".chars().collect();
    assert_eq!(parse_u32(&c), None);
}

#[test]
fn frametime_rescaled_to_target_rate() {
    // 8.333333 ms at 120 Hz becomes 16.666666 ms at 60 fps.
    assert_eq!(do_fix(8_333_333, 60, 120), Some(16_666_666));
    assert_eq!(do_fix(500_000, 60, 120), None);
    assert_eq!(fix_frametime(8_333_333, 60, Some(120)), 16_666_666);
    assert_eq!(fix_frametime(8_333_333, 60, Some(60)), 8_333_333);
    assert_eq!(fix_frametime(8_333_333, 60, None), 8_333_333);
}

#[test]
fn hooked_process_names() {
    assert_eq!(process_name("com.game:remote "), "com.game");
    assert_eq!(process_name(" com.game "), "com.game");
}

#[test]
fn symbol_found_by_readable_name() {
    let h = SymbolHooker::from_symbols(strings(&[
        "memcpy",
        "_ZN7android7Surface11queueBufferEP19ANativeWindowBufferiPv",
        "_ZN7android7Surface11queueBufferEP19ANativeWindowBufferi",
    ]));
    assert_eq!(
        h.find_symbol("android::Surface::queueBuffer"),
        Ok("_ZN7android7Surface11queueBufferEP19ANativeWindowBufferi".to_string())
    );
    assert_eq!(h.find_symbol("android::Surface::dequeueBuffer"), Err(HookError::Symbol));
}

#[test]
fn unparsable_library_is_rejected() {
    assert!(matches!(SymbolHooker::new(&[0u8; 4]), Err(HookError::LibParse)));
}
