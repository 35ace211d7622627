//! What the plugin host tells plugins: which plugin files it loads, which
//! API versions hear of each event, and which plugin function each event
//! calls with which arguments.
use vstd::prelude::*;

use crate::text::{chars_of, slice_chars};

verus! {

/// An event of the scheduler that plugins are told of.
#[derive(Debug, Clone, PartialEq, Eq)]
pub enum ApiEvent {
    LoadFas(i32, String),
    UnloadFas(i32, String),
    StartFas,
    StopFas,
    InitCpuFreq,
    ResetCpuFreq,
    TargetFpsChange(u32, String),
}

/// An event of the first plugin interface.
#[derive(Debug, Clone, Copy, PartialEq, Eq, Structural)]
pub enum CallBack {
    InitFas(i32),
    StopFas(i32),
    InitCpuFreq,
    WriteCpuFreq(usize),
    ResetCpuFreq,
}

/// The arguments a plugin function is called with.
#[derive(Debug, Clone, PartialEq, Eq)]
pub enum CallArgs {
    Nothing,
    Pid(i32),
    PidPackage(i32, String),
    Freq(usize),
    FpsPackage(u32, String),
}

/// The arguments, as plain values.
pub enum CallArgsView {
    Nothing,
    Pid(i32),
    PidPackage(i32, Seq<char>),
    Freq(usize),
    FpsPackage(u32, Seq<char>),
}

impl View for CallArgs {
    type V = CallArgsView;

    open spec fn view(&self) -> CallArgsView {
        match self {
            CallArgs::Nothing => CallArgsView::Nothing,
            CallArgs::Pid(p) => CallArgsView::Pid(*p),
            CallArgs::PidPackage(p, s) => CallArgsView::PidPackage(*p, s@),
            CallArgs::Freq(f) => CallArgsView::Freq(*f),
            CallArgs::FpsPackage(f, s) => CallArgsView::FpsPackage(*f, s@),
        }
    }
}

/// The plugin function an event calls.
pub open spec fn event_function(e: ApiEvent) -> Seq<char> {
    match e {
        ApiEvent::LoadFas(_, _) => "load_fas"@,
        ApiEvent::UnloadFas(_, _) => "unload_fas"@,
        ApiEvent::StartFas => "start_fas"@,
        ApiEvent::StopFas => "stop_fas"@,
        ApiEvent::InitCpuFreq => "init_cpu_freq"@,
        ApiEvent::ResetCpuFreq => "reset_cpu_freq"@,
        ApiEvent::TargetFpsChange(_, _) => "target_fps_change"@,
    }
}

/// The arguments an event passes.
pub open spec fn event_args(e: ApiEvent) -> CallArgsView {
    match e {
        ApiEvent::LoadFas(p, s) => CallArgsView::PidPackage(p, s@),
        ApiEvent::UnloadFas(p, s) => CallArgsView::PidPackage(p, s@),
        ApiEvent::TargetFpsChange(f, s) => CallArgsView::FpsPackage(f, s@),
        _ => CallArgsView::Nothing,
    }
}

/// The API versions that hear of an event: the change of target frame rate
/// came with version 2; every other event goes to versions 0 to 4.
pub open spec fn event_versions(e: ApiEvent) -> Seq<u8> {
    match e {
        ApiEvent::TargetFpsChange(_, _) => seq![2u8, 3u8, 4u8],
        _ => seq![0u8, 1u8, 2u8, 3u8, 4u8],
    }
}

/// The API versions that hear of `e`, in the order they are told.
pub fn event_versions_exec(e: &ApiEvent) -> (r: Vec<u8>)
    ensures
        r@ == event_versions(*e),
{
    match e {
        ApiEvent::TargetFpsChange(_, _) => vec![2u8, 3u8, 4u8],
        _ => vec![0u8, 1u8, 2u8, 3u8, 4u8],
    }
}

/// A plugin hears of an event through a handler of version `handler` only
/// when it declares that API version.
pub open spec fn plugin_hears(plugin_version: u8, handler: u8) -> bool {
    plugin_version == handler
}

/// Whether a plugin declaring `plugin_version` is served by the handler of
/// version `handler`.
pub fn plugin_hears_exec(plugin_version: u8, handler: u8) -> (r: bool)
    ensures
        r == plugin_hears(plugin_version, handler),
{
    plugin_version == handler
}

/// The plugin function `e` calls and the arguments it passes.
pub fn event_call(e: ApiEvent) -> (r: (String, CallArgs))
    ensures
        r.0@ == event_function(e),
        r.1@ == event_args(e),
{
    match e {
        ApiEvent::LoadFas(p, s) => ("load_fas".to_owned(), CallArgs::PidPackage(p, s)),
        ApiEvent::UnloadFas(p, s) => ("unload_fas".to_owned(), CallArgs::PidPackage(p, s)),
        ApiEvent::StartFas => ("start_fas".to_owned(), CallArgs::Nothing),
        ApiEvent::StopFas => ("stop_fas".to_owned(), CallArgs::Nothing),
        ApiEvent::InitCpuFreq => ("init_cpu_freq".to_owned(), CallArgs::Nothing),
        ApiEvent::ResetCpuFreq => ("reset_cpu_freq".to_owned(), CallArgs::Nothing),
        ApiEvent::TargetFpsChange(f, s) => ("target_fps_change".to_owned(), CallArgs::FpsPackage(f, s)),
    }
}

/// The plugin function an event of the first interface calls.
pub open spec fn callback_function(c: CallBack) -> Seq<char> {
    match c {
        CallBack::InitFas(_) => "init_fas"@,
        CallBack::StopFas(_) => "stop_fas"@,
        CallBack::InitCpuFreq => "init_cpu_freq"@,
        CallBack::WriteCpuFreq(_) => "write_cpu_freq"@,
        CallBack::ResetCpuFreq => "reset_cpu_freq"@,
    }
}

pub open spec fn callback_args(c: CallBack) -> CallArgsView {
    match c {
        CallBack::InitFas(p) => CallArgsView::Pid(p),
        CallBack::StopFas(p) => CallArgsView::Pid(p),
        CallBack::WriteCpuFreq(f) => CallArgsView::Freq(f),
        _ => CallArgsView::Nothing,
    }
}

/// The plugin function an event of the first interface calls, with its
/// arguments.
pub fn callback_call(c: CallBack) -> (r: (String, CallArgs))
    ensures
        r.0@ == callback_function(c),
        r.1@ == callback_args(c),
{
    match c {
        CallBack::InitFas(p) => ("init_fas".to_owned(), CallArgs::Pid(p)),
        CallBack::StopFas(p) => ("stop_fas".to_owned(), CallArgs::Pid(p)),
        CallBack::InitCpuFreq => ("init_cpu_freq".to_owned(), CallArgs::Nothing),
        CallBack::WriteCpuFreq(f) => ("write_cpu_freq".to_owned(), CallArgs::Freq(f)),
        CallBack::ResetCpuFreq => ("reset_cpu_freq".to_owned(), CallArgs::Nothing),
    }
}

/// Index of the last `.` in `s` before index `j`, or -1.
pub open spec fn last_dot_before(s: Seq<char>, j: int) -> int
    decreases j,
{
    if j <= 0 {
        -1
    } else if s[j - 1] == '.' {
        j - 1
    } else {
        last_dot_before(s, j - 1)
    }
}

/// The extension of a file name, as `Path::extension` gives it: the text
/// after the last `.`, unless there is no `.`, the only `.` opens the name,
/// or the name is `..`.
pub open spec fn file_extension(name: Seq<char>) -> Option<Seq<char>> {
    let d = last_dot_before(name, name.len() as int);
    if name == ".."@ || d <= 0 {
        None
    } else {
        Some(name.skip(d + 1))
    }
}

proof fn lemma_last_dot_bounds(s: Seq<char>, j: int)
    requires
        0 <= j <= s.len(),
    ensures
        last_dot_before(s, j) < j,
        -1 <= last_dot_before(s, j),
        last_dot_before(s, j) >= 0 ==> s[last_dot_before(s, j)] == '.',
    decreases j,
{
    if j > 0 && s[j - 1] != '.' {
        lemma_last_dot_bounds(s, j - 1);
    }
}

/// Whether a plugin file is a Lua script: its extension is `lua`. `None`
/// for a name without an extension.
pub fn is_lua_script(file_name: &str) -> (r: Option<bool>)
    ensures
        match file_extension(file_name@) {
            None => r is None,
            Some(e) => r == Some(e == "lua"@),
        },
{
    let v = chars_of(file_name);
    let ghost s = v@;
    let mut j = v.len();
    while j > 0 && v[j - 1] != '.'
        invariant
            j <= v@.len(),
            s == v@,
            last_dot_before(s, v@.len() as int) == last_dot_before(s, j as int),
        decreases j,
    {
        j -= 1;
    }
    proof {
        lemma_last_dot_bounds(s, j as int);
        reveal_strlit("..");
        reveal_strlit("lua");
    }
    if j <= 1 {
        return None;
    }
    let d = j - 1;
    if v.len() == 2 && v[0] == '.' && v[1] == '.' {
        assert(s =~= ".."@);
        return None;
    }
    assert(s != ".."@) by {
        if s == ".."@ {
            assert(s.len() == 2 && s[0] == '.' && s[1] == '.');
        }
    }
    let e = slice_chars(&v, d + 1, v.len());
    assert(e@ =~= s.skip(d + 1));
    let is_lua = e.len() == 3 && e[0] == 'l' && e[1] == 'u' && e[2] == 'a';
    assert(is_lua ==> e@ =~= "lua"@);
    assert(e@ == "lua"@ ==> is_lua) by {
        if e@ == "lua"@ {
            assert(e@[0] == 'l' && e@[1] == 'u' && e@[2] == 'a');
        }
    }
    Some(is_lua)
}

} // verus!
