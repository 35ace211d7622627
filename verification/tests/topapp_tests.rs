use fas_rs::topapp::WindowsInfo;
use fas_rs::zygisk::process_name;

const A16: &str = "WINDOW MANAGER WINDOWS (dumpsys window windows)
  Window #0 Window{a1 u0 com.other/com.other.Main}:
    mDisplayId=0 mSession=Session{b2 4444:u0a10} mClient=x
  Window #1 Window{c3 u0 com.game/com.game.Main}:
    mDisplayId=0 rootTaskId=1 mSession=Session{d4 12345:u0a123} mClient=y
  Window #2 Window{e5 u0 StatusBar}:
    mSession=Session{f6 777:u0a1}
  mFocusedApp=ActivityRecord{ff u0 com.game/.Main t12}
";

const A15: &str = "WINDOW MANAGER SESSIONS (dumpsys window sessions)
  Session Session{a1b2 2222:u0a55}:
    mNumWindow=1
    mPackageName=com.other
  Session Session{c3d4 3333:u0a66}:
    mNumWindow=2
    mPackageName=com.game
  mFocusedApp=ActivityRecord{ff u0 com.game/.Main t12}
";

#[test]
fn window_list_format_gives_the_session_pid() {
    let w = WindowsInfo::new(A16);
    assert_eq!(w.pids, vec![12345]);
    assert!(!w.visible_freeform_window);
}

#[test]
fn session_list_format_gives_the_last_session_pid() {
    let w = WindowsInfo::new(A15);
    assert_eq!(w.pids, vec![3333]);
}

#[test]
fn no_focused_app_gives_no_pid() {
    let w = WindowsInfo::new("nothing here\n  Window #0 Window{a u0 x/y}\n");
    assert!(w.pids.is_empty());
    let w = WindowsInfo::new("  mFocusedApp=null\n");
    assert!(w.pids.is_empty());
}

#[test]
fn freeform_windows_are_seen() {
    assert!(WindowsInfo::new("a FlexibleTaskCaptionView b").visible_freeform_window);
    assert!(WindowsInfo::new("mode=freeform").visible_freeform_window);
    assert!(!WindowsInfo::new("mode=fullscreen").visible_freeform_window);
}

#[test]
fn braces_out_of_order_cannot_be_read() {
    let dump = "  Window #0 Window{c3 u0 com.game/com.game.Main}:\n    mSession=}{ 1 2\n  mFocusedApp=ActivityRecord{ff u0 com.game/.Main t12}\n";
    assert!(WindowsInfo::parse(dump).is_none());
    assert!(WindowsInfo::parse(A16).is_some());
}

#[test]
fn process_names() {
    assert_eq!(process_name("com.game:remote"), "com.game");
    assert_eq!(process_name(" com.game "), "com.game");
    assert_eq!(process_name(""), "");
}
