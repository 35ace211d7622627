//! Frame data read from SurfaceFlinger's dumps: the frame times of the
//! sampled view, and the frame counter it reports.
use vstd::prelude::*;

use crate::text::{
    chars_of, lines, lines_exec, parse_u64, parse_u64_spec, second_field, second_field_exec, words,
    words_exec,
};

verus! {

/// Timestamps above this (nanoseconds) are not taken as frames.
pub const LATENCY_STAMP_MAX: u64 = 10_000_000_000_000_000;

/// `l.split_whitespace().nth(1)`.
pub open spec fn second_word(l: Seq<char>) -> Option<Seq<char>> {
    if words(l).len() >= 2 {
        Some(words(l)[1])
    } else {
        None
    }
}

/// The frame timestamps that the lines from index `i` on hold in their
/// second column, zeros and values above `LATENCY_STAMP_MAX` left out; a line
/// without a second column is skipped. `None` when a second column is no number.
pub open spec fn latency_stamps_from(ls: Seq<Seq<char>>, i: int) -> Option<Seq<u64>>
    decreases ls.len() - i,
{
    if i >= ls.len() {
        Some(Seq::empty())
    } else {
        let rest = latency_stamps_from(ls, i + 1);
        match second_word(ls[i]) {
            None => rest,
            Some(f) => match parse_u64_spec(f) {
                None => None,
                Some(v) => match rest {
                    None => None,
                    Some(r) => if v != 0 && v <= LATENCY_STAMP_MAX {
                        Some(seq![v] + r)
                    } else {
                        Some(r)
                    },
                },
            },
        }
    }
}

/// The timestamps of a latency dump, whose first two lines are a header.
pub open spec fn latency_stamps(output: Seq<char>) -> Option<Seq<u64>> {
    latency_stamps_from(lines(output), 2)
}

/// No timestamp is earlier than the one before it.
pub open spec fn stamps_increasing(s: Seq<u64>) -> bool {
    forall|k: int| 0 <= k < s.len() - 1 ==> s[k] <= #[trigger] s[k + 1]
}

/// The gaps between consecutive timestamps, newest first, at most `count`
/// of them, each lengthened by `prefix_ns`.
pub open spec fn recent_intervals(s: Seq<u64>, count: nat, prefix_ns: nat) -> Seq<int> {
    let m: int = if s.len() > 0 {
        s.len() - 1
    } else {
        0
    };
    let n: int = if count < m {
        count as int
    } else {
        m
    };
    Seq::new(n as nat, |j: int| s[m - j] - s[m - 1 - j] + prefix_ns)
}

fn second_word_exec(l: &Vec<char>) -> (r: Option<Vec<char>>)
    ensures
        match r {
            Some(w) => second_word(l@) == Some(w@),
            None => second_word(l@) is None,
        },
{
    let mut ws = words_exec(l.as_slice());
    if ws.len() >= 2 {
        let w = ws.remove(1);
        Some(w)
    } else {
        None
    }
}

fn latency_stamps_exec(output: &str) -> (r: Option<Vec<u64>>)
    ensures
        match r {
            Some(v) => latency_stamps(output@) == Some(v@) && forall|k: int| 0 <= k < v@.len() ==> #[trigger] v@[k]
                <= LATENCY_STAMP_MAX,
            None => latency_stamps(output@) is None,
        },
{
    let ls = lines_exec(&chars_of(output));
    let ghost g = lines(output@);
    let mut acc: Vec<u64> = Vec::new();
    let mut i: usize = 2;
    assert(g.len() == ls@.len());
    while i < ls.len()
        invariant
            2 <= i,
            i <= ls@.len() || ls@.len() < 2,
            g == lines(output@),
            ls@.len() == g.len(),
            forall|k: int| 0 <= k < ls@.len() ==> #[trigger] ls@[k]@ == g[k],
            forall|k: int| 0 <= k < acc@.len() ==> #[trigger] acc@[k] <= LATENCY_STAMP_MAX,
            latency_stamps_from(g, 2) == match latency_stamps_from(g, i as int) {
                None => None,
                Some(r) => Some(acc@ + r),
            },
        decreases ls@.len() - i,
    {
        let ghost before = acc@;
        match second_word_exec(&ls[i]) {
            None => {},
            Some(f) => {
                match parse_u64(f.as_slice()) {
                    None => {
                        return None;
                    },
                    Some(v) => {
                        if v != 0 && v <= LATENCY_STAMP_MAX {
                            acc.push(v);
                            proof {
                                match latency_stamps_from(g, i + 1) {
                                    None => {},
                                    Some(r) => {
                                        assert(before + (seq![v] + r) =~= acc@ + r);
                                    },
                                }
                            }
                        }
                    },
                }
            },
        }
        i += 1;
    }
    proof {
        assert(latency_stamps_from(g, i as int) == Some(Seq::<u64>::empty()));
        assert(acc@ + Seq::<u64>::empty() =~= acc@);
    }
    Some(acc)
}

/// The gaps between the timestamps, newest first, as `recent_intervals` says;
/// `None` when a timestamp is earlier than the one before it.
fn intervals_of(s: &Vec<u64>, count: u32, prefix_ns: u64) -> (r: Option<Vec<u64>>)
    requires
        forall|k: int| 0 <= k < s@.len() ==> #[trigger] s@[k] <= LATENCY_STAMP_MAX,
        prefix_ns + LATENCY_STAMP_MAX <= u64::MAX,
    ensures
        match r {
            Some(v) => stamps_increasing(s@) && v@.len() == recent_intervals(s@, count as nat, prefix_ns as nat).len()
                && forall|j: int| 0 <= j < v@.len() ==> #[trigger] v@[j] as int == recent_intervals(
                s@,
                count as nat,
                prefix_ns as nat,
            )[j],
            None => !stamps_increasing(s@),
        },
{
    let mut k: usize = 1;
    while k < s.len()
        invariant
            1 <= k,
            k <= s@.len() || s@.len() == 0,
            forall|j: int| 0 <= j < k - 1 && j < s@.len() - 1 ==> s@[j] <= #[trigger] s@[j + 1],
        decreases s@.len() - k,
    {
        if s[k] < s[k - 1] {
            assert(s@[k - 1] > s@[(k - 1) + 1]);
            return None;
        }
        k += 1;
    }
    let ghost spec = recent_intervals(s@, count as nat, prefix_ns as nat);
    let m: usize = if s.len() > 0 {
        s.len() - 1
    } else {
        0
    };
    let n: usize = if (count as usize) < m {
        count as usize
    } else {
        m
    };
    let mut r: Vec<u64> = Vec::new();
    let mut j: usize = 0;
    while j < n
        invariant
            j <= n,
            n <= m,
            m as int == (if s@.len() > 0 {
                s@.len() - 1
            } else {
                0
            }),
            n == spec.len(),
            spec == recent_intervals(s@, count as nat, prefix_ns as nat),
            stamps_increasing(s@),
            forall|k: int| 0 <= k < s@.len() ==> #[trigger] s@[k] <= LATENCY_STAMP_MAX,
            prefix_ns + LATENCY_STAMP_MAX <= u64::MAX,
            r@.len() == j,
            forall|i: int| 0 <= i < j ==> #[trigger] r@[i] as int == spec[i],
        decreases n - j,
    {
        let hi = s[m - j];
        let lo = s[m - 1 - j];
        assert(s@[(m - 1 - j) as int] <= s@[(m - 1 - j) + 1]);
        r.push(hi - lo + prefix_ns);
        j += 1;
    }
    Some(r)
}

/// The frame times of the sampled view from a latency dump (nanoseconds):
/// the gaps between its timestamps, newest first, at most `take_count` of
/// them, each lengthened by `prefix_us` microseconds. `None` where a
/// timestamp column is no number, or a timestamp is earlier than the one
/// before it.
pub fn dump_frametimes(output: &str, take_count: u32, prefix_us: u64) -> (r: Option<Vec<u64>>)
    requires
        prefix_us * 1000 + LATENCY_STAMP_MAX <= u64::MAX,
    ensures
        match latency_stamps(output@) {
            None => r is None,
            Some(s) => if stamps_increasing(s) {
                &&& r is Some
                &&& r.unwrap()@.len() == recent_intervals(s, take_count as nat, (prefix_us * 1000) as nat).len()
                &&& forall|j: int| 0 <= j < r.unwrap()@.len() ==> #[trigger] r.unwrap()@[j] as int == recent_intervals(
                    s,
                    take_count as nat,
                    (prefix_us * 1000) as nat,
                )[j]
            } else {
                r is None
            },
        },
{
    let s = match latency_stamps_exec(output) {
        Some(s) => s,
        None => return None,
    };
    intervals_of(&s, take_count, prefix_us * 1000)
}

/// Whether `c` is a hexadecimal digit.
pub open spec fn is_hex_digit(c: char) -> bool {
    ('0' <= c <= '9') || ('a' <= c <= 'f') || ('A' <= c <= 'F')
}

pub open spec fn hex_digit_value(c: char) -> nat {
    if '0' <= c <= '9' {
        ((c as u32) - ('0' as u32)) as nat
    } else if 'a' <= c <= 'f' {
        ((c as u32) - ('a' as u32) + 10) as nat
    } else {
        ((c as u32) - ('A' as u32) + 10) as nat
    }
}

pub open spec fn all_hex(s: Seq<char>) -> bool {
    forall|i: int| 0 <= i < s.len() ==> is_hex_digit(#[trigger] s[i])
}

/// The value of a string of hexadecimal digits.
pub open spec fn hex_value(s: Seq<char>) -> nat
    decreases s.len(),
{
    if s.len() == 0 {
        0
    } else {
        hex_value(s.drop_last()) * 16 + hex_digit_value(s.last())
    }
}

/// What `i32::from_str_radix(s, 16)` gives back on success: an optional `+`
/// or `-`, then at least one hexadecimal digit, the value within `i32`.
pub open spec fn parse_hex_i32_spec(s: Seq<char>) -> Option<i32> {
    if s.len() == 0 {
        None
    } else {
        let signed = s[0] == '+' || s[0] == '-';
        let d = if signed {
            s.drop_first()
        } else {
            s
        };
        if d.len() == 0 || !all_hex(d) {
            None
        } else {
            let v: int = if s[0] == '-' {
                -(hex_value(d) as int)
            } else {
                hex_value(d) as int
            };
            if i32::MIN <= v <= i32::MAX {
                Some(v as i32)
            } else {
                None
            }
        }
    }
}

proof fn lemma_hex_value_prefix_le(s: Seq<char>, k: int)
    requires
        0 <= k <= s.len(),
    ensures
        hex_value(s.take(k)) <= hex_value(s),
    decreases s.len() - k,
{
    if k < s.len() {
        lemma_hex_value_prefix_le(s, k + 1);
        assert(s.take(k + 1).drop_last() =~= s.take(k));
    } else {
        assert(s.take(k) =~= s);
    }
}

/// `i32::from_str_radix(s, 16).ok()`.
pub fn parse_hex_i32(v: &[char]) -> (r: Option<i32>)
    ensures
        r == parse_hex_i32_spec(v@),
{
    if v.len() == 0 {
        return None;
    }
    let neg = v[0] == '-';
    let signed = v[0] == '+' || neg;
    let from: usize = if signed {
        1
    } else {
        0
    };
    let ghost d = v@.skip(from as int);
    assert(signed ==> d =~= v@.drop_first());
    assert(!signed ==> d =~= v@);
    if from == v.len() {
        return None;
    }
    let limit: u64 = if neg {
        2147483648
    } else {
        2147483647
    };
    let mut acc: u64 = 0;
    let mut i = from;
    while i < v.len()
        invariant
            from <= i <= v.len(),
            d == v@.skip(from as int),
            all_hex(d.take(i - from)),
            acc == hex_value(d.take(i - from)),
            acc <= limit,
            v@.len() > 0,
            signed ==> d == v@.drop_first(),
            !signed ==> d == v@,
            neg == (v@[0] == '-'),
            signed == (v@[0] == '+' || neg),
            from == (if signed {
                1usize
            } else {
                0usize
            }),
            limit == (if neg {
                2147483648u64
            } else {
                2147483647u64
            }),
        decreases v.len() - i,
    {
        let c = v[i];
        assert(d[i - from] == c);
        let dig: u64 = if '0' <= c && c <= '9' {
            (c as u32 - '0' as u32) as u64
        } else if 'a' <= c && c <= 'f' {
            (c as u32 - 'a' as u32 + 10) as u64
        } else if 'A' <= c && c <= 'F' {
            (c as u32 - 'A' as u32 + 10) as u64
        } else {
            assert(!is_hex_digit(d[i - from]));
            return None;
        };
        assert(dig == hex_digit_value(c));
        assert(d.take(i - from).push(c) =~= d.take(i + 1 - from));
        assert(d.take(i + 1 - from).drop_last() =~= d.take(i - from));
        let next = acc * 16 + dig;
        if next > limit {
            proof {
                lemma_hex_value_prefix_le(d, i + 1 - from);
                let t = d.take(i + 1 - from);
                assert(t.last() == c);
                assert(hex_value(t) == hex_value(t.drop_last()) * 16 + hex_digit_value(t.last()));
                assert(hex_value(d) > limit);
            }
            return None;
        }
        acc = next;
        i += 1;
    }
    assert(d.take(i - from) =~= d);
    if neg {
        if acc == 2147483648 {
            Some(i32::MIN)
        } else {
            Some(-(acc as i32))
        }
    } else {
        Some(acc as i32)
    }
}

/// The counter text of a frame-counter reply (`Result: Parcel(0000002a ...`):
/// its second word, between the first and a following `(`.
pub open spec fn frame_stamp_text(reply: Seq<char>) -> Option<Seq<char>> {
    match second_word(reply) {
        Some(w) => second_field(w, '('),
        None => None,
    }
}

/// The frame counter a reply reports; `None` where the reply has no counter
/// text or it is no hexadecimal `i32`.
pub fn parse_frame_stamp(reply: &str) -> (r: Option<i32>)
    ensures
        r == match frame_stamp_text(reply@) {
            Some(t) => parse_hex_i32_spec(t),
            None => None,
        },
{
    let v = chars_of(reply);
    let w = match second_word_exec(&v) {
        Some(w) => w,
        None => return None,
    };
    match second_field_exec(w.as_slice(), '(') {
        Some(t) => parse_hex_i32(t.as_slice()),
        None => None,
    }
}

/// The frame rate over an interval: the frames counted divided by the
/// interval in seconds, cut to a whole number and held within `u32`; no
/// frames, or fewer, is 0, and frames in no time is `u32::MAX`.
pub open spec fn stamp_fps_spec(count: int, elapsed_ns: nat) -> int {
    if count <= 0 {
        0
    } else if elapsed_ns == 0 {
        u32::MAX as int
    } else if count * 1_000_000_000 / (elapsed_ns as int) > u32::MAX {
        u32::MAX as int
    } else {
        count * 1_000_000_000 / (elapsed_ns as int)
    }
}

/// The frame rate between two counter readings taken `elapsed_ns` apart.
pub fn stamp_fps(stamp_a: i32, stamp_b: i32, elapsed_ns: u64) -> (r: u32)
    requires
        i32::MIN <= stamp_b - stamp_a <= i32::MAX,
    ensures
        r as int == stamp_fps_spec(stamp_b - stamp_a, elapsed_ns as nat),
{
    let count = stamp_b - stamp_a;
    if count <= 0 {
        0
    } else if elapsed_ns == 0 {
        u32::MAX
    } else {
        let q = (count as u128) * 1_000_000_000 / (elapsed_ns as u128);
        if q > u32::MAX as u128 {
            u32::MAX
        } else {
            q as u32
        }
    }
}

} // verus!
