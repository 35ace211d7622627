//! Reading the window manager's dump: which process owns the focused app, and
//! whether a free-form window is visible.
use vstd::prelude::*;

use crate::buffer::{elapsed, elapsed_exec};
use crate::text::{
    after_pattern, after_pattern_exec, before_char, before_char_exec, chars_eq, chars_of, contains,
    contains_exec, find_char, find_char_exec, lemma_find_char_from_bounds, lines, lines_exec,
    parse_i32, parse_i32_spec, second_field, second_field_exec, slice_chars, slice_chars_all,
    starts_with, starts_with_exec, trim, trim_exec, words, words_exec,
};

verus! {

/// The line among `ls`, from index `i` on, that starts (after trimming) with
/// `mFocusedApp=`.
pub open spec fn focused_line_from(ls: Seq<Seq<char>>, i: int) -> Option<Seq<char>>
    decreases ls.len() - i,
{
    if i < 0 || i >= ls.len() {
        None
    } else if starts_with(trim(ls[i]), "mFocusedApp="@) {
        Some(ls[i])
    } else {
        focused_line_from(ls, i + 1)
    }
}

/// The first word from index `i` on that holds a `/`.
pub open spec fn word_with_slash_from(ws: Seq<Seq<char>>, i: int) -> Option<Seq<char>>
    decreases ws.len() - i,
{
    if i < 0 || i >= ws.len() {
        None
    } else if contains(ws[i], seq!['/']) {
        Some(ws[i])
    } else {
        word_with_slash_from(ws, i + 1)
    }
}

/// The package of a focused-app line: the first word holding a `/`, up to that `/`.
pub open spec fn package_name_spec(line: Seq<char>) -> Option<Seq<char>> {
    match word_with_slash_from(words(line), 0) {
        Some(w) => Some(before_char(w, '/')),
        None => None,
    }
}

/// The braces of the session part of a line are in an order that can be cut.
pub open spec fn session_cut_ok(line: Seq<char>) -> bool {
    match after_pattern(line, "mSession="@) {
        Some(part) => {
            let s = find_char(part, '{');
            let e = find_char(part, '}');
            s >= 0 && e >= 0 ==> s + 1 <= e
        },
        None => true,
    }
}

/// The process id in a `mSession=Session{... pid:uid ...}` line: the second
/// word between the braces, up to a `:`.
pub open spec fn session_pid(line: Seq<char>) -> Option<i32> {
    match after_pattern(line, "mSession="@) {
        Some(part) => {
            let s = find_char(part, '{');
            let e = find_char(part, '}');
            if s < 0 || e < 0 {
                None
            } else {
                let ws = words(part.subrange(s + 1, e));
                if ws.len() < 2 {
                    None
                } else {
                    parse_i32_spec(before_char(ws[1], ':'))
                }
            }
        },
        None => None,
    }
}

/// The window-list scan (Android 16 and later): after a `Window #` line that
/// names the package, the first `mSession=` line gives the pid; another
/// `Window #` line first ends the search.
pub open spec fn a16_from(ls: Seq<Seq<char>>, pkg: Seq<char>, i: int, in_section: bool) -> Option<i32>
    decreases ls.len() - i,
{
    if i < 0 || i >= ls.len() {
        None
    } else if in_section {
        if contains(ls[i], "mSession="@) {
            session_pid(ls[i])
        } else if contains(ls[i], "Window #"@) {
            None
        } else {
            a16_from(ls, pkg, i + 1, true)
        }
    } else if contains(ls[i], "Window #"@) && contains(ls[i], pkg) {
        a16_from(ls, pkg, i + 1, true)
    } else {
        a16_from(ls, pkg, i + 1, false)
    }
}

/// The window-list scan reaches no session line whose braces cannot be cut.
pub open spec fn a16_ok_from(ls: Seq<Seq<char>>, pkg: Seq<char>, i: int, in_section: bool) -> bool
    decreases ls.len() - i,
{
    if i < 0 || i >= ls.len() {
        true
    } else if in_section {
        if contains(ls[i], "mSession="@) {
            session_cut_ok(ls[i])
        } else if contains(ls[i], "Window #"@) {
            true
        } else {
            a16_ok_from(ls, pkg, i + 1, true)
        }
    } else if contains(ls[i], "Window #"@) && contains(ls[i], pkg) {
        a16_ok_from(ls, pkg, i + 1, true)
    } else {
        a16_ok_from(ls, pkg, i + 1, false)
    }
}

/// The outcome of the session-list scan at one line: `Err` ends the whole
/// scan with no pid; `Ok` gives the last session pid seen so far.
pub open spec fn a15_session(line: Seq<char>, last: Option<i32>) -> Result<Option<i32>, ()> {
    if starts_with(line, "  Session Session{"@) {
        let s = find_char(line, '{');
        let e = find_char(line, '}');
        if e < 0 {
            Err(())
        } else {
            let ws = words(line.subrange(s + 1, e));
            if ws.len() < 2 {
                Err(())
            } else {
                Ok(parse_i32_spec(before_char(ws[1], ':')))
            }
        }
    } else {
        Ok(last)
    }
}

/// The session-list scan (Android 15 and earlier): the pid of the last
/// `Session{...}` line before the `mPackageName=` line that names the package.
pub open spec fn a15_from(ls: Seq<Seq<char>>, pkg: Seq<char>, i: int, last: Option<i32>) -> Option<i32>
    decreases ls.len() - i,
{
    if i < 0 || i >= ls.len() {
        None
    } else {
        match a15_session(ls[i], last) {
            Err(_) => None,
            Ok(last) => {
                let t = trim(ls[i]);
                if starts_with(t, "mPackageName="@) && second_field(t, '=') == Some(pkg) {
                    last
                } else {
                    a15_from(ls, pkg, i + 1, last)
                }
            },
        }
    }
}

/// The pid of the focused app: by the window-list format, else by the
/// session-list format.
pub open spec fn top_app_pid(dump: Seq<char>) -> Option<i32> {
    let ls = lines(dump);
    match focused_line_from(ls, 0) {
        None => None,
        Some(l) => match package_name_spec(l) {
            None => None,
            Some(p) => match a16_from(ls, p, 0, false) {
                Some(pid) => Some(pid),
                None => a15_from(ls, p, 0, None),
            },
        },
    }
}

/// Reading the dump never cuts a session part whose braces are out of order.
pub open spec fn dump_ok(dump: Seq<char>) -> bool {
    let ls = lines(dump);
    match focused_line_from(ls, 0) {
        None => true,
        Some(l) => match package_name_spec(l) {
            None => true,
            Some(p) => a16_ok_from(ls, p, 0, false),
        },
    }
}

/// Whether the dump shows a free-form window.
pub open spec fn freeform_visible(dump: Seq<char>) -> bool {
    contains(dump, "freeform"@) || contains(dump, "FlexibleTaskCaptionView"@) || contains(
        dump,
        "FlexibleTaskIndicatorView"@,
    )
}

/// What the window dump shows.
#[derive(Debug, Default)]
pub struct WindowsInfo {
    pub visible_freeform_window: bool,
    pub pids: Vec<i32>,
}

impl WindowsInfo {
    /// Reads a window-manager dump.
    pub fn new(dump: &str) -> (r: Self)
        requires
            dump_ok(dump@),
        ensures
            r.visible_freeform_window == freeform_visible(dump@),
            r.pids@ == match top_app_pid(dump@) {
                Some(p) => seq![p],
                None => Seq::<i32>::empty(),
            },
    {
        let v = chars_of(dump);
        let pids = Self::parse_top_app(&v);
        let visible_freeform_window = contains_exec(&v, &chars_of("freeform")) || contains_exec(
            &v,
            &chars_of("FlexibleTaskCaptionView"),
        ) || contains_exec(&v, &chars_of("FlexibleTaskIndicatorView"));
        WindowsInfo { visible_freeform_window, pids }
    }

    /// Reads a window-manager dump; `None` for a dump whose session part has
    /// its braces out of order, which the reader cannot cut.
    pub fn parse(dump: &str) -> (r: Option<Self>)
        ensures
            dump_ok(dump@) ==> r is Some,
            !dump_ok(dump@) ==> r is None,
            match r {
                Some(w) => w.visible_freeform_window == freeform_visible(dump@) && w.pids@
                    == match top_app_pid(dump@) {
                    Some(p) => seq![p],
                    None => Seq::<i32>::empty(),
                },
                None => true,
            },
    {
        let v = chars_of(dump);
        let ls = lines_exec(&v);
        let ghost gl = lines(v@);
        assert(ls@.map_values(|l: Vec<char>| l@) =~= gl);
        let ok = match Self::focused_line(&ls) {
            None => true,
            Some(l) => match Self::extract_package_name(&l) {
                None => true,
                Some(p) => Self::parse_a16_format(&ls, &p).is_some(),
            },
        };
        if ok {
            Some(Self::new(dump))
        } else {
            None
        }
    }

    fn focused_line(ls: &Vec<Vec<char>>) -> (r: Option<Vec<char>>)
        ensures
            match r {
                Some(l) => focused_line_from(ls@.map_values(|l: Vec<char>| l@), 0) == Some(l@),
                None => focused_line_from(ls@.map_values(|l: Vec<char>| l@), 0) is None,
            },
    {
        let ghost g = ls@.map_values(|l: Vec<char>| l@);
        let pat = chars_of("mFocusedApp=");
        let mut i: usize = 0;
        while i < ls.len()
            invariant
                i <= ls@.len(),
                g == ls@.map_values(|l: Vec<char>| l@),
                pat@ == "mFocusedApp="@,
                focused_line_from(g, 0) == focused_line_from(g, i as int),
            decreases ls@.len() - i,
        {
            let t = trim_exec(&ls[i]);
            assert(g[i as int] == ls@[i as int]@);
            if starts_with_exec(&t, &pat) {
                return Some(slice_chars_all(&ls[i]));
            }
            i += 1;
        }
        None
    }

    /// The package a focused-app line names.
    fn extract_package_name(line: &Vec<char>) -> (r: Option<Vec<char>>)
        ensures
            match r {
                Some(p) => package_name_spec(line@) == Some(p@),
                None => package_name_spec(line@) is None,
            },
    {
        let ws = words_exec(line);
        let ghost g = words(line@);
        let slash = vec!['/'];
        let mut i: usize = 0;
        while i < ws.len()
            invariant
                i <= ws@.len(),
                ws@.len() == g.len(),
                g == words(line@),
                forall|k: int| 0 <= k < ws@.len() ==> #[trigger] ws@[k]@ == g[k],
                slash@ == seq!['/'],
                word_with_slash_from(g, 0) == word_with_slash_from(g, i as int),
            decreases ws@.len() - i,
        {
            if contains_exec(&ws[i], &slash) {
                return Some(before_char_exec(&ws[i], '/'));
            }
            i += 1;
        }
        None
    }

    /// The pid in a session line, or `None`; `Err` when the braces are out of order.
    fn session_pid_exec(line: &Vec<char>) -> (r: Result<Option<i32>, ()>)
        ensures
            r is Ok <==> session_cut_ok(line@),
            match r {
                Ok(p) => p == session_pid(line@),
                Err(_) => true,
            },
    {
        let part = match after_pattern_exec(line, &chars_of("mSession=")) {
            Some(p) => p,
            None => return Ok(None),
        };
        let s = match find_char_exec(&part, '{', 0) {
            Some(s) => s,
            None => return Ok(None),
        };
        let e = match find_char_exec(&part, '}', 0) {
            Some(e) => e,
            None => return Ok(None),
        };
        proof {
            lemma_find_char_from_bounds(part@, '{', 0);
            lemma_find_char_from_bounds(part@, '}', 0);
        }
        if s + 1 > e {
            return Err(());
        }
        let content = slice_chars(&part, s + 1, e);
        let ws = words_exec(&content);
        if ws.len() < 2 {
            return Ok(None);
        }
        let p = before_char_exec(&ws[1], ':');
        Ok(parse_i32(&p))
    }

    /// The window-list scan; `None` when it reaches a session line it cannot cut.
    fn parse_a16_format(ls: &Vec<Vec<char>>, pkg: &Vec<char>) -> (r: Option<Option<i32>>)
        ensures
            r is Some <==> a16_ok_from(ls@.map_values(|l: Vec<char>| l@), pkg@, 0, false),
            match r {
                Some(p) => p == a16_from(ls@.map_values(|l: Vec<char>| l@), pkg@, 0, false),
                None => true,
            },
    {
        let ghost g = ls@.map_values(|l: Vec<char>| l@);
        let session = chars_of("mSession=");
        let window = chars_of("Window #");
        let mut in_section = false;
        let mut i: usize = 0;
        while i < ls.len()
            invariant
                i <= ls@.len(),
                g == ls@.map_values(|l: Vec<char>| l@),
                session@ == "mSession="@,
                window@ == "Window #"@,
                a16_from(g, pkg@, 0, false) == a16_from(g, pkg@, i as int, in_section),
                a16_ok_from(g, pkg@, 0, false) == a16_ok_from(g, pkg@, i as int, in_section),
            decreases ls@.len() - i,
        {
            assert(g[i as int] == ls@[i as int]@);
            let line = &ls[i];
            if in_section {
                if contains_exec(line, &session) {
                    return match Self::session_pid_exec(line) {
                        Ok(p) => Some(p),
                        Err(_) => None,
                    };
                }
                if contains_exec(line, &window) {
                    return Some(None);
                }
            } else if contains_exec(line, &window) && contains_exec(line, pkg) {
                in_section = true;
            }
            i += 1;
        }
        Some(None)
    }

    /// The session-list scan.
    fn parse_a15_format(ls: &Vec<Vec<char>>, pkg: &Vec<char>) -> (r: Option<i32>)
        ensures
            r == a15_from(ls@.map_values(|l: Vec<char>| l@), pkg@, 0, None),
    {
        let ghost g = ls@.map_values(|l: Vec<char>| l@);
        let prefix = chars_of("  Session Session{");
        let pname = chars_of("mPackageName=");
        let mut last_pid_found: Option<i32> = None;
        let mut i: usize = 0;
        while i < ls.len()
            invariant
                i <= ls@.len(),
                g == ls@.map_values(|l: Vec<char>| l@),
                prefix@ == "  Session Session{"@,
                pname@ == "mPackageName="@,
                a15_from(g, pkg@, 0, None) == a15_from(g, pkg@, i as int, last_pid_found),
            decreases ls@.len() - i,
        {
            assert(g[i as int] == ls@[i as int]@);
            let line = &ls[i];
            if starts_with_exec(line, &prefix) {
                let s = match find_char_exec(line, '{', 0) {
                    Some(s) => s,
                    None => {
                        proof {
                            reveal_strlit("  Session Session{");
                            assert("  Session Session{"@.len() == 18);
                            assert(line@.subrange(0, 18) == "  Session Session{"@);
                            assert("  Session Session{"@[17] == '{');
                            assert(line@.subrange(0, 18)[17] == line@[17]);
                            lemma_find_char_from_bounds(line@, '{', 0);
                        }
                        return None;
                    },
                };
                let e = match find_char_exec(line, '}', 0) {
                    Some(e) => e,
                    None => return None,
                };
                proof {
                    reveal_strlit("  Session Session{");
                    assert("  Session Session{"@.len() == 18);
                    assert(line@.subrange(0, 18) == "  Session Session{"@);
                    assert("  Session Session{"@[17] == '{');
                    assert(line@.subrange(0, 18)[17] == line@[17]);
                    lemma_find_char_from_bounds(line@, '{', 0);
                    lemma_find_char_from_bounds(line@, '}', 0);
                    assert forall|k: int| 0 <= k < 18 implies line@[k] != '}' by {
                        assert(line@[k] == line@.subrange(0, 18)[k]);
                    }
                    assert forall|k: int| 0 <= k < 17 implies line@[k] != '{' by {
                        assert(line@[k] == line@.subrange(0, 18)[k]);
                    }
                    assert(s == 17);
                }
                let content = slice_chars(line, s + 1, e);
                let ws = words_exec(&content);
                if ws.len() < 2 {
                    return None;
                }
                let p = before_char_exec(&ws[1], ':');
                last_pid_found = parse_i32(&p);
            }
            let t = trim_exec(line);
            if starts_with_exec(&t, &pname) {
                match second_field_exec(&t, '=') {
                    Some(f) => {
                        if chars_eq(&f, pkg) {
                            return last_pid_found;
                        }
                    },
                    None => {},
                }
            }
            i += 1;
        }
        None
    }

    /// The pid of the focused app, as a list of none or one.
    fn parse_top_app(v: &Vec<char>) -> (r: Vec<i32>)
        requires
            dump_ok(v@),
        ensures
            r@ == match top_app_pid(v@) {
                Some(p) => seq![p],
                None => Seq::<i32>::empty(),
            },
    {
        let ls = lines_exec(v);
        let ghost gl = lines(v@);
        assert(ls@.map_values(|l: Vec<char>| l@) =~= gl);
        let line = match Self::focused_line(&ls) {
            Some(l) => l,
            None => return Vec::new(),
        };
        let pkg = match Self::extract_package_name(&line) {
            Some(p) => p,
            None => return Vec::new(),
        };
        let pid = match Self::parse_a16_format(&ls, &pkg) {
            Some(Some(p)) => Some(p),
            _ => Self::parse_a15_format(&ls, &pkg),
        };
        match pid {
            Some(p) => vec![p],
            None => Vec::new(),
        }
    }
}

/// How long the window information read last is used (nanoseconds).
pub const TOPAPP_REFRESH_NS: u64 = 1_000_000_000;

/// The window information read last, and when it was read (nanoseconds).
pub struct TopAppsWatcher {
    pub cache: WindowsInfo,
    pub last_refresh: u64,
}

impl TopAppsWatcher {
    /// Nothing read yet: no app in front, no free-form window.
    pub fn new(now: u64) -> (r: Self)
        ensures
            r.cache.pids@ == Seq::<i32>::empty(),
            !r.cache.visible_freeform_window,
            r.last_refresh == now,
    {
        TopAppsWatcher { cache: WindowsInfo { visible_freeform_window: false, pids: Vec::new() }, last_refresh: now }
    }

    /// Whether the information is older than the refresh time at `now`, so
    /// that the windows are to be read again.
    pub fn needs_refresh(&self, now: u64) -> (r: bool)
        ensures
            r == (elapsed(now, self.last_refresh) > TOPAPP_REFRESH_NS),
    {
        elapsed_exec(now, self.last_refresh) > TOPAPP_REFRESH_NS
    }

    /// Keeps freshly read window information, read at `now`.
    pub fn refresh(&mut self, info: WindowsInfo, now: u64)
        ensures
            final(self).cache == info,
            final(self).last_refresh == now,
    {
        self.cache = info;
        self.last_refresh = now;
    }

    /// The processes of the app in front, as read last.
    pub fn topapp_pids(&self) -> (r: &Vec<i32>)
        ensures
            r@ == self.cache.pids@,
    {
        &self.cache.pids
    }

    /// Whether a free-form window was visible when last read.
    pub fn visible_freeform_window(&self) -> (r: bool)
        ensures
            r == self.cache.visible_freeform_window,
    {
        self.cache.visible_freeform_window
    }
}

} // verus!
