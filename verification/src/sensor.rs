//! Frame-time sources read from SurfaceFlinger: picking the view to sample,
//! reading the screen's refresh rate, and rescaling frame times taken at
//! the refresh rate to the target rate.
use vstd::prelude::*;

use crate::text::{
    before_char, before_char_exec, chars_of, contains, contains_exec, lines, lines_exec,
    parse_u64, parse_u64_spec, second_field, second_field_exec, string_of, trim, trim_exec,
};

verus! {

/// What `s.parse::<u32>()` gives back on success.
pub open spec fn parse_u32_spec(s: Seq<char>) -> Option<u32> {
    match parse_u64_spec(s) {
        Some(v) => if v <= u32::MAX {
            Some(v as u32)
        } else {
            None
        },
        None => None,
    }
}

/// `s.parse::<u32>().ok()`.
pub fn parse_u32(v: &[char]) -> (r: Option<u32>)
    ensures
        r == parse_u32_spec(v@),
{
    match parse_u64(v) {
        Some(x) => if x <= u32::MAX as u64 {
            Some(x as u32)
        } else {
            None
        },
        None => None,
    }
}

/// The first line from index `i` on that holds both patterns.
pub open spec fn first_line_with2(ls: Seq<Seq<char>>, a: Seq<char>, b: Seq<char>, i: int) -> Option<Seq<char>>
    decreases ls.len() - i,
{
    if i < 0 || i >= ls.len() {
        None
    } else if contains(ls[i], a) && contains(ls[i], b) {
        Some(ls[i])
    } else {
        first_line_with2(ls, a, b, i + 1)
    }
}

/// The view to sample: the first BLAST surface view, else the first plain
/// surface view, trimmed.
pub open spec fn cur_view_spec(views: Seq<char>) -> Option<Seq<char>> {
    let ls = lines(views);
    match first_line_with2(ls, "SurfaceView["@, "BLAST"@, 0) {
        Some(l) => Some(trim(l)),
        None => match first_line_with2(ls, "SurfaceView -"@, "SurfaceView -"@, 0) {
            Some(l) => Some(trim(l)),
            None => None,
        },
    }
}

fn first_line_with2_exec(ls: &Vec<Vec<char>>, a: &Vec<char>, b: &Vec<char>) -> (r: Option<usize>)
    ensures
        match r {
            Some(i) => i < ls@.len() && first_line_with2(ls@.map_values(|l: Vec<char>| l@), a@, b@, 0)
                == Some(ls@[i as int]@),
            None => first_line_with2(ls@.map_values(|l: Vec<char>| l@), a@, b@, 0) is None,
        },
{
    let ghost g = ls@.map_values(|l: Vec<char>| l@);
    let mut i: usize = 0;
    while i < ls.len()
        invariant
            i <= ls@.len(),
            g == ls@.map_values(|l: Vec<char>| l@),
            first_line_with2(g, a@, b@, 0) == first_line_with2(g, a@, b@, i as int),
        decreases ls@.len() - i,
    {
        assert(g[i as int] == ls@[i as int]@);
        if contains_exec(&ls[i], a) && contains_exec(&ls[i], b) {
            return Some(i);
        }
        i += 1;
    }
    None
}

/// The surface view to sample frame times from, read from a list of views.
pub fn get_cur_view(views: &str) -> (r: Option<String>)
    ensures
        match r {
            Some(s) => cur_view_spec(views@) == Some(s@),
            None => cur_view_spec(views@) is None,
        },
{
    let v = chars_of(views);
    let ls = lines_exec(&v);
    assert(ls@.map_values(|l: Vec<char>| l@) =~= lines(v@));
    match first_line_with2_exec(&ls, &chars_of("SurfaceView["), &chars_of("BLAST")) {
        Some(i) => Some(string_of(&trim_exec(&ls[i]))),
        None => {
            let p = chars_of("SurfaceView -");
            match first_line_with2_exec(&ls, &p, &p) {
                Some(i) => Some(string_of(&trim_exec(&ls[i]))),
                None => None,
            }
        },
    }
}

/// The text of the refresh rate in a SurfaceFlinger dump: on the first line
/// that mentions `refresh-rate`, after its first `:` and before the next `:`,
/// up to a `.`, trimmed. `None` when there is no such line or no `:`.
pub open spec fn refresh_rate_text(dump: Seq<char>) -> Option<Seq<char>> {
    match first_line_with2(lines(dump), "refresh-rate"@, "refresh-rate"@, 0) {
        Some(l) => match second_field(l, ':') {
            Some(f) => Some(trim(before_char(f, '.'))),
            None => None,
        },
        None => None,
    }
}

/// The refresh rate a SurfaceFlinger dump gives: `Ok(None)` when it names
/// none, `Err(())` when the text it names is no number.
pub fn get_refresh_rate(dump: &str) -> (r: Result<Option<u32>, ()>)
    ensures
        match refresh_rate_text(dump@) {
            None => r == Ok::<Option<u32>, ()>(None),
            Some(t) => match parse_u32_spec(t) {
                Some(x) => r == Ok::<Option<u32>, ()>(Some(x)),
                None => r is Err,
            },
        },
{
    let v = chars_of(dump);
    let ls = lines_exec(&v);
    assert(ls@.map_values(|l: Vec<char>| l@) =~= lines(v@));
    let p = chars_of("refresh-rate");
    let i = match first_line_with2_exec(&ls, &p, &p) {
        Some(i) => i,
        None => return Ok(None),
    };
    let f = match second_field_exec(&ls[i], ':') {
        Some(f) => f,
        None => return Ok(None),
    };
    let t = trim_exec(&before_char_exec(&f, '.'));
    match parse_u32(&t) {
        Some(x) => Ok(Some(x)),
        None => Err(()),
    }
}

/// A frame time (nanoseconds) measured at another refresh rate, rescaled to
/// the target rate: the whole milliseconds become the target frame's whole
/// milliseconds, and the rest is scaled by the same ratio. `None` when the
/// frame is under a millisecond or over `u32::MAX` milliseconds.
pub open spec fn do_fix_spec(f: nat, t: nat) -> Option<nat> {
    let ms = f / 1_000_000nat;
    let target_ms = (1_000_000_000nat / t) / 1_000_000nat;
    if ms > u32::MAX || ms == 0 {
        None
    } else {
        Some((f % 1_000_000) * target_ms / ms + target_ms * 1_000_000)
    }
}

/// Rescales the frame time `f` (nanoseconds) to the target rate `t`; the
/// screen's rate `r` must be nonzero as well.
pub fn do_fix(f: u64, t: u32, r: u32) -> (res: Option<u64>)
    requires
        t > 0,
        r > 0,
    ensures
        match do_fix_spec(f as nat, t as nat) {
            Some(x) => res == Some(x as u64),
            None => res is None,
        },
{
    let target_frametime: u64 = 1_000_000_000 / (t as u64);
    let _refresh_time: u64 = 1_000_000_000 / (r as u64);
    let unfixed_ms = f / 1_000_000;
    if unfixed_ms > u32::MAX as u64 {
        return None;
    }
    let target_ms = target_frametime / 1_000_000;
    let rest = f - unfixed_ms * 1_000_000;
    assert(rest == f % 1_000_000);
    if unfixed_ms == 0 {
        return None;
    }
    assert(target_ms <= 1000);
    assert(rest * target_ms <= 999_999 * 1000) by (nonlinear_arith)
        requires
            rest < 1_000_000,
            target_ms <= 1000,
    ;
    let scaled = rest * target_ms / unfixed_ms;
    assert(scaled <= rest * target_ms) by (nonlinear_arith)
        requires
            scaled == (rest * target_ms) as int / (unfixed_ms as int),
            unfixed_ms >= 1,
    ;
    Some(scaled + target_ms * 1_000_000)
}

/// A frame time adjusted for a screen that refreshes at another rate than
/// the target: rescaled when the rates differ and rescaling gives a value.
pub fn fix_frametime(frametime: u64, target_fps: u32, refresh_rate: Option<u32>) -> (r: u64)
    requires
        target_fps > 0,
        refresh_rate != Some(0u32),
    ensures
        r == match refresh_rate {
            Some(rate) => if rate != target_fps {
                match do_fix_spec(frametime as nat, target_fps as nat) {
                    Some(x) => x as u64,
                    None => frametime,
                }
            } else {
                frametime
            },
            None => frametime,
        },
{
    match refresh_rate {
        Some(rate) => if rate != target_fps {
            match do_fix(frametime, target_fps, rate) {
                Some(x) => x,
                None => frametime,
            }
        } else {
            frametime
        },
        None => frametime,
    }
}

} // verus!
