//! Character-level text handling: whitespace, trimming, splitting, searching
//! and integer parsing, each stated over the character sequence of the text.
use vstd::prelude::*;

verus! {

// ---------------------------------------------------------------------------
// Specifications
// ---------------------------------------------------------------------------

/// Unicode `White_Space`, the set of characters `char::is_whitespace` accepts.
pub open spec fn is_ws(c: char) -> bool {
    let u = c as u32;
    ||| 0x09 <= u <= 0x0D
    ||| u == 0x20
    ||| u == 0x85
    ||| u == 0xA0
    ||| u == 0x1680
    ||| 0x2000 <= u <= 0x200A
    ||| u == 0x2028
    ||| u == 0x2029
    ||| u == 0x202F
    ||| u == 0x205F
    ||| u == 0x3000
}

/// First index at or after `i` holding `c`, or -1 when there is none.
pub open spec fn find_char_from(s: Seq<char>, c: char, i: int) -> int
    decreases s.len() - i,
{
    if i < 0 || i >= s.len() {
        -1
    } else if s[i] == c {
        i
    } else {
        find_char_from(s, c, i + 1)
    }
}

/// First index holding `c`, or -1.
pub open spec fn find_char(s: Seq<char>, c: char) -> int {
    find_char_from(s, c, 0)
}

/// `s.split(c).next()`: the text before the first `c`, or all of it.
pub open spec fn before_char(s: Seq<char>, c: char) -> Seq<char> {
    if find_char(s, c) < 0 {
        s
    } else {
        s.take(find_char(s, c))
    }
}

/// `s.split(c).nth(1)`: the text between the first and the second `c`.
pub open spec fn second_field(s: Seq<char>, c: char) -> Option<Seq<char>> {
    if find_char(s, c) < 0 {
        None
    } else {
        Some(before_char(s.skip(find_char(s, c) + 1), c))
    }
}

/// `p` occurs in `s` starting at `i`.
pub open spec fn occurs_at(s: Seq<char>, p: Seq<char>, i: int) -> bool {
    0 <= i && i + p.len() <= s.len() && s.subrange(i, i + p.len()) == p
}

/// `s.starts_with(p)`.
pub open spec fn starts_with(s: Seq<char>, p: Seq<char>) -> bool {
    occurs_at(s, p, 0)
}

/// First index at or after `i` where `p` occurs in `s`, or -1.
pub open spec fn find_str_from(s: Seq<char>, p: Seq<char>, i: int) -> int
    decreases s.len() + 1 - i,
{
    if i < 0 || i + p.len() > s.len() {
        -1
    } else if occurs_at(s, p, i) {
        i
    } else {
        find_str_from(s, p, i + 1)
    }
}

/// First index where `p` occurs in `s`, or -1.
pub open spec fn find_str(s: Seq<char>, p: Seq<char>) -> int {
    find_str_from(s, p, 0)
}

/// `s.contains(p)`.
pub open spec fn contains(s: Seq<char>, p: Seq<char>) -> bool {
    exists|i: int| occurs_at(s, p, i)
}

/// `s.split(p).nth(1)` for a non-empty pattern `p`: the text between the first
/// and the second occurrence of `p`, or up to the end.
pub open spec fn after_pattern(s: Seq<char>, p: Seq<char>) -> Option<Seq<char>> {
    if find_str(s, p) < 0 {
        None
    } else {
        let rest = s.skip(find_str(s, p) + p.len());
        Some(
            if find_str(rest, p) < 0 {
                rest
            } else {
                rest.take(find_str(rest, p))
            },
        )
    }
}

/// Index of the first non-whitespace character at or after `i` (or the length).
pub open spec fn skip_ws(s: Seq<char>, i: int) -> int
    decreases s.len() - i,
{
    if 0 <= i < s.len() && is_ws(s[i]) {
        skip_ws(s, i + 1)
    } else {
        i
    }
}

/// Index of the first whitespace character at or after `i` (or the length).
pub open spec fn skip_word(s: Seq<char>, i: int) -> int
    decreases s.len() - i,
{
    if 0 <= i < s.len() && !is_ws(s[i]) {
        skip_word(s, i + 1)
    } else {
        i
    }
}

/// Index just past the last non-whitespace character before `j` (or 0).
pub open spec fn trim_end_at(s: Seq<char>, j: int) -> int
    decreases j,
{
    if 0 < j <= s.len() && is_ws(s[j - 1]) {
        trim_end_at(s, j - 1)
    } else {
        j
    }
}

/// `s.trim_start()`.
pub open spec fn trim_start(s: Seq<char>) -> Seq<char> {
    s.skip(skip_ws(s, 0))
}

/// `s.trim()`: leading and trailing whitespace removed.
pub open spec fn trim(s: Seq<char>) -> Seq<char> {
    let a = skip_ws(s, 0);
    let t = s.skip(a);
    t.take(trim_end_at(t, t.len() as int))
}

/// The words of `s` from index `i` on, as `split_whitespace` yields them.
pub open spec fn words_from(s: Seq<char>, i: int) -> Seq<Seq<char>>
    decreases s.len() - i,
{
    let a = skip_ws(s, i);
    if i < 0 || a >= s.len() {
        Seq::empty()
    } else {
        let b = skip_word(s, a);
        proof {
            lemma_skip_ws_bounds(s, i);
            lemma_skip_word_bounds(s, a);
        }
        if b <= i {
            Seq::empty()
        } else {
            seq![s.subrange(a, b)] + words_from(s, b)
        }
    }
}

/// `s.split_whitespace()`.
pub open spec fn words(s: Seq<char>) -> Seq<Seq<char>> {
    words_from(s, 0)
}

/// A line with one trailing carriage return removed, if it has one.
pub open spec fn strip_cr(l: Seq<char>) -> Seq<char> {
    if l.len() > 0 && l.last() == '\r' {
        l.drop_last()
    } else {
        l
    }
}

/// The lines of `s` from index `i` on, as `str::lines` yields them: split at
/// `\n`, a `\r` before the `\n` dropped, no empty line after a final `\n`.
pub open spec fn lines_from(s: Seq<char>, i: int) -> Seq<Seq<char>>
    decreases s.len() - i,
{
    if i < 0 || i >= s.len() {
        Seq::empty()
    } else {
        let j = find_char_from(s, '\n', i);
        proof {
            lemma_find_char_from_bounds(s, '\n', i);
        }
        if j < 0 {
            seq![s.subrange(i, s.len() as int)]
        } else {
            seq![strip_cr(s.subrange(i, j))] + lines_from(s, j + 1)
        }
    }
}

/// `s.lines()`.
pub open spec fn lines(s: Seq<char>) -> Seq<Seq<char>> {
    lines_from(s, 0)
}

pub open spec fn is_digit(c: char) -> bool {
    '0' <= c <= '9'
}

pub open spec fn all_digits(s: Seq<char>) -> bool {
    forall|i: int| 0 <= i < s.len() ==> is_digit(#[trigger] s[i])
}

/// The value of a string of decimal digits.
pub open spec fn digits_value(s: Seq<char>) -> nat
    decreases s.len(),
{
    if s.len() == 0 {
        0
    } else {
        digits_value(s.drop_last()) * 10 + ((s.last() as u32) - ('0' as u32)) as nat
    }
}

/// The number that a signed decimal text denotes, as `i32::from_str` and
/// `i64::from_str` read it before the range check: an optional `+` or `-`,
/// then at least one digit.
pub open spec fn signed_value(s: Seq<char>) -> Option<int> {
    if s.len() == 0 {
        None
    } else {
        let signed = s[0] == '+' || s[0] == '-';
        let d = if signed {
            s.drop_first()
        } else {
            s
        };
        if d.len() == 0 || !all_digits(d) {
            None
        } else if s[0] == '-' {
            Some(-(digits_value(d) as int))
        } else {
            Some(digits_value(d) as int)
        }
    }
}

/// What `s.parse::<i32>()` gives back on success.
pub open spec fn parse_i32_spec(s: Seq<char>) -> Option<i32> {
    match signed_value(s) {
        Some(v) => if i32::MIN <= v <= i32::MAX {
            Some(v as i32)
        } else {
            None
        },
        None => None,
    }
}

/// What `s.parse::<u64>()` gives back on success: an optional `+`, then digits.
pub open spec fn parse_u64_spec(s: Seq<char>) -> Option<u64> {
    if s.len() > 0 && s[0] == '-' {
        None
    } else {
        match signed_value(s) {
            Some(v) => if 0 <= v <= u64::MAX {
                Some(v as u64)
            } else {
                None
            },
            None => None,
        }
    }
}

// ---------------------------------------------------------------------------
// Lemmas
// ---------------------------------------------------------------------------

pub proof fn lemma_find_char_from_bounds(s: Seq<char>, c: char, i: int)
    ensures
        find_char_from(s, c, i) == -1 || (i <= find_char_from(s, c, i) < s.len() && s[find_char_from(s, c, i)] == c),
        0 <= i ==> find_char_from(s, c, i) == -1 ==> forall|k: int| i <= k < s.len() ==> s[k] != c,
        0 <= i ==> find_char_from(s, c, i) >= 0 ==> forall|k: int| i <= k < find_char_from(s, c, i) ==> s[k] != c,
    decreases s.len() - i,
{
    if i < 0 || i >= s.len() {
    } else if s[i] == c {
    } else {
        lemma_find_char_from_bounds(s, c, i + 1);
    }
}

pub proof fn lemma_skip_ws_bounds(s: Seq<char>, i: int)
    requires
        0 <= i,
    ensures
        i <= skip_ws(s, i),
        i <= s.len() ==> skip_ws(s, i) <= s.len(),
        skip_ws(s, i) < s.len() ==> !is_ws(s[skip_ws(s, i)]),
        forall|k: int| i <= k < skip_ws(s, i) ==> is_ws(#[trigger] s[k]),
    decreases s.len() - i,
{
    if 0 <= i < s.len() && is_ws(s[i]) {
        lemma_skip_ws_bounds(s, i + 1);
    }
}

pub proof fn lemma_skip_word_bounds(s: Seq<char>, i: int)
    requires
        0 <= i <= s.len(),
    ensures
        i <= skip_word(s, i) <= s.len(),
        skip_word(s, i) < s.len() ==> is_ws(s[skip_word(s, i)]),
    decreases s.len() - i,
{
    if 0 <= i < s.len() && !is_ws(s[i]) {
        lemma_skip_word_bounds(s, i + 1);
    }
}

pub proof fn lemma_trim_end_bounds(s: Seq<char>, j: int)
    requires
        0 <= j <= s.len(),
    ensures
        0 <= trim_end_at(s, j) <= j,
    decreases j,
{
    if 0 < j <= s.len() && is_ws(s[j - 1]) {
        lemma_trim_end_bounds(s, j - 1);
    }
}

pub proof fn lemma_digits_value_push(s: Seq<char>, c: char)
    ensures
        digits_value(s.push(c)) == digits_value(s) * 10 + ((c as u32) - ('0' as u32)) as nat,
{
    assert(s.push(c).drop_last() =~= s);
}

pub proof fn lemma_digits_value_prefix_le(s: Seq<char>, k: int)
    requires
        0 <= k <= s.len(),
        all_digits(s),
    ensures
        digits_value(s.take(k)) <= digits_value(s),
    decreases s.len() - k,
{
    if k < s.len() {
        lemma_digits_value_prefix_le(s, k + 1);
        assert(s.take(k + 1).drop_last() =~= s.take(k));
        assert(is_digit(s[k]));
    } else {
        assert(s.take(k) =~= s);
    }
}

// ---------------------------------------------------------------------------
// Executable operations
// ---------------------------------------------------------------------------

/// Appends one character to a string.
#[verifier::external_body]
pub(crate) fn push_char(s: &mut String, c: char)
    ensures
        final(s)@ == old(s)@.push(c),
{
    s.push(c);
}

/// The characters of a string slice, in order.
pub fn chars_of(s: &str) -> (r: Vec<char>)
    ensures
        r@ == s@,
{
    let mut r: Vec<char> = Vec::new();
    for c in it: s.chars()
        invariant
            r@ == it.seq().take(it.index() as int),
    {
        r.push(c);
    }
    r
}

/// A string made of the given characters.
pub fn string_of(v: &[char]) -> (r: String)
    ensures
        r@ == v@,
{
    let mut r = String::new();
    let mut i: usize = 0;
    while i < v.len()
        invariant
            i <= v.len(),
            r@ == v@.take(i as int),
        decreases v.len() - i,
    {
        push_char(&mut r, v[i]);
        assert(v@.take(i as int).push(v@[i as int]) =~= v@.take(i + 1));
        i += 1;
    }
    assert(v@.take(v.len() as int) =~= v@);
    r
}

/// The characters from index `a` up to `b`.
pub fn slice_chars(v: &[char], a: usize, b: usize) -> (r: Vec<char>)
    requires
        a <= b <= v.len(),
    ensures
        r@ == v@.subrange(a as int, b as int),
{
    let mut r: Vec<char> = Vec::new();
    let mut i = a;
    while i < b
        invariant
            a <= i <= b <= v.len(),
            r@ == v@.subrange(a as int, i as int),
        decreases b - i,
    {
        r.push(v[i]);
        assert(v@.subrange(a as int, i as int).push(v@[i as int]) =~= v@.subrange(a as int, i + 1));
        i += 1;
    }
    r
}

/// Whether two character sequences are equal.
pub fn chars_eq(a: &[char], b: &[char]) -> (r: bool)
    ensures
        r == (a@ == b@),
{
    if a.len() != b.len() {
        return false;
    }
    let mut i: usize = 0;
    while i < a.len()
        invariant
            a.len() == b.len(),
            i <= a.len(),
            forall|k: int| 0 <= k < i ==> a@[k] == b@[k],
        decreases a.len() - i,
    {
        if a[i] != b[i] {
            return false;
        }
        i += 1;
    }
    assert(a@ =~= b@);
    true
}

/// `char::is_whitespace`.
pub fn is_whitespace(c: char) -> (r: bool)
    ensures
        r == is_ws(c),
{
    let u = c as u32;
    (0x09 <= u && u <= 0x0D) || u == 0x20 || u == 0x85 || u == 0xA0 || u == 0x1680 || (0x2000 <= u
        && u <= 0x200A) || u == 0x2028 || u == 0x2029 || u == 0x202F || u == 0x205F || u == 0x3000
}

/// First index at or after `from` holding `c`, if any.
pub fn find_char_exec(v: &[char], c: char, from: usize) -> (r: Option<usize>)
    requires
        from <= v.len(),
    ensures
        match r {
            Some(j) => j as int == find_char_from(v@, c, from as int),
            None => find_char_from(v@, c, from as int) == -1,
        },
{
    let mut i = from;
    while i < v.len()
        invariant
            from <= i <= v.len(),
            find_char_from(v@, c, from as int) == find_char_from(v@, c, i as int),
        decreases v.len() - i,
    {
        if v[i] == c {
            return Some(i);
        }
        i += 1;
    }
    None
}

/// Whether `p` occurs in `v` at index `i`.
pub fn occurs_at_exec(v: &[char], p: &[char], i: usize) -> (r: bool)
    ensures
        r == occurs_at(v@, p@, i as int),
{
    if i > v.len() || p.len() > v.len() - i {
        return false;
    }
    let mut k: usize = 0;
    while k < p.len()
        invariant
            i + p.len() <= v.len(),
            k <= p.len(),
            forall|m: int| 0 <= m < k ==> v@[i + m] == p@[m],
        decreases p.len() - k,
    {
        if v[i + k] != p[k] {
            assert(v@.subrange(i as int, i + p.len())[k as int] != p@[k as int]);
            return false;
        }
        k += 1;
    }
    assert(v@.subrange(i as int, i + p.len()) =~= p@);
    true
}

/// First index at or after `from` where `p` occurs, if any.
pub fn find_str_exec(v: &[char], p: &[char], from: usize) -> (r: Option<usize>)
    ensures
        match r {
            Some(j) => j as int == find_str_from(v@, p@, from as int),
            None => find_str_from(v@, p@, from as int) == -1,
        },
{
    let mut i = from;
    while i <= v.len() && p.len() <= v.len() - i
        invariant
            from <= i,
            find_str_from(v@, p@, from as int) == find_str_from(v@, p@, i as int),
        decreases v.len() + 1 - i,
    {
        if occurs_at_exec(v, p, i) {
            return Some(i);
        }
        if i == v.len() {
            proof {
                if p@.len() == 0 {
                    assert(v@.subrange(i as int, i as int) =~= p@);
                }
                assert(find_str_from(v@, p@, i + 1) == -1);
            }
            return None;
        }
        i += 1;
    }
    None
}

pub proof fn lemma_find_str_from_none(s: Seq<char>, p: Seq<char>, i: int)
    requires
        0 <= i,
        find_str_from(s, p, i) == -1,
    ensures
        forall|k: int| i <= k ==> !occurs_at(s, p, k),
    decreases s.len() + 1 - i,
{
    if i + p.len() > s.len() {
    } else {
        lemma_find_str_from_none(s, p, i + 1);
    }
}

pub proof fn lemma_find_str_from_some(s: Seq<char>, p: Seq<char>, i: int)
    requires
        0 <= i,
        find_str_from(s, p, i) >= 0,
    ensures
        occurs_at(s, p, find_str_from(s, p, i)),
        i <= find_str_from(s, p, i),
    decreases s.len() + 1 - i,
{
    if i + p.len() > s.len() {
    } else if occurs_at(s, p, i) {
    } else {
        lemma_find_str_from_some(s, p, i + 1);
    }
}

/// `s.contains(p)`.
pub fn contains_exec(v: &[char], p: &[char]) -> (r: bool)
    ensures
        r == contains(v@, p@),
{
    match find_str_exec(v, p, 0) {
        Some(_) => {
            proof {
                lemma_find_str_from_some(v@, p@, 0);
            }
            true
        },
        None => {
            proof {
                lemma_find_str_from_none(v@, p@, 0);
            }
            false
        },
    }
}

/// `s.starts_with(p)`.
pub fn starts_with_exec(v: &[char], p: &[char]) -> (r: bool)
    ensures
        r == starts_with(v@, p@),
{
    occurs_at_exec(v, p, 0)
}

/// `s.split(c).next()`.
pub fn before_char_exec(v: &[char], c: char) -> (r: Vec<char>)
    ensures
        r@ == before_char(v@, c),
{
    match find_char_exec(v, c, 0) {
        Some(j) => {
            proof {
                lemma_find_char_from_bounds(v@, c, 0);
            }
            let r = slice_chars(v, 0, j);
            assert(r@ =~= v@.take(j as int));
            r
        },
        None => slice_chars_all(v),
    }
}

/// A copy of all the characters.
pub fn slice_chars_all(v: &[char]) -> (r: Vec<char>)
    ensures
        r@ == v@,
{
    let r = slice_chars(v, 0, v.len());
    assert(r@ =~= v@);
    r
}

/// `s.split(c).nth(1)`.
pub fn second_field_exec(v: &[char], c: char) -> (r: Option<Vec<char>>)
    ensures
        match r {
            Some(f) => second_field(v@, c) == Some(f@),
            None => second_field(v@, c) is None,
        },
{
    match find_char_exec(v, c, 0) {
        Some(j) => {
            proof {
                lemma_find_char_from_bounds(v@, c, 0);
                assert(j < v.len());
            }
            let rest = slice_chars(v, j + 1, v.len());
            assert(rest@ =~= v@.skip(j + 1));
            Some(before_char_exec(&rest, c))
        },
        None => None,
    }
}

/// `s.split(p).nth(1)` for a pattern `p`.
pub fn after_pattern_exec(v: &[char], p: &[char]) -> (r: Option<Vec<char>>)
    ensures
        match r {
            Some(f) => after_pattern(v@, p@) == Some(f@),
            None => after_pattern(v@, p@) is None,
        },
{
    match find_str_exec(v, p, 0) {
        Some(j) => {
            proof {
                lemma_find_str_from_some(v@, p@, 0);
                assert(j + p.len() <= v.len());
            }
            let start = j + p.len();
            let rest = slice_chars(v, start, v.len());
            assert(rest@ =~= v@.skip(find_str(v@, p@) + p@.len()));
            match find_str_exec(&rest, p, 0) {
                Some(k) => {
                    proof {
                        lemma_find_str_from_some(rest@, p@, 0);
                    }
                    let f = slice_chars(&rest, 0, k);
                    assert(f@ =~= rest@.take(k as int));
                    Some(f)
                },
                None => Some(rest),
            }
        },
        None => None,
    }
}

/// `s.trim()`.
pub fn trim_exec(v: &[char]) -> (r: Vec<char>)
    ensures
        r@ == trim(v@),
{
    let mut a: usize = 0;
    while a < v.len() && is_whitespace(v[a])
        invariant
            a <= v.len(),
            skip_ws(v@, 0) == skip_ws(v@, a as int),
        decreases v.len() - a,
    {
        a += 1;
    }
    let t = slice_chars(v, a, v.len());
    assert(t@ =~= v@.skip(a as int));
    let mut b: usize = t.len();
    while b > 0 && is_whitespace(t[b - 1])
        invariant
            b <= t.len(),
            trim_end_at(t@, t@.len() as int) == trim_end_at(t@, b as int),
        decreases b,
    {
        b -= 1;
    }
    let r = slice_chars(&t, 0, b);
    assert(r@ =~= t@.take(b as int));
    r
}

/// `s.split_whitespace()`, collected.
pub fn words_exec(v: &[char]) -> (r: Vec<Vec<char>>)
    ensures
        r@.len() == words(v@).len(),
        forall|k: int| 0 <= k < r@.len() ==> #[trigger] r@[k]@ == words(v@)[k],
{
    let mut r: Vec<Vec<char>> = Vec::new();
    let mut i: usize = 0;
    while i < v.len()
        invariant
            i <= v.len(),
            r@.len() + words_from(v@, i as int).len() == words(v@).len(),
            forall|k: int| 0 <= k < r@.len() ==> #[trigger] r@[k]@ == words(v@)[k],
            forall|k: int|
                0 <= k < words_from(v@, i as int).len() ==> #[trigger] words_from(v@, i as int)[k]
                    == words(v@)[r@.len() + k],
        decreases v.len() - i,
    {
        let ghost old_i = i as int;
        let mut a = i;
        while a < v.len() && is_whitespace(v[a])
            invariant
                old_i <= a <= v.len(),
                skip_ws(v@, old_i) == skip_ws(v@, a as int),
            decreases v.len() - a,
        {
            a += 1;
        }
        if a >= v.len() {
            assert(words_from(v@, old_i) =~= Seq::<Seq<char>>::empty());
            i = v.len();
        } else {
            let mut b = a;
            while b < v.len() && !is_whitespace(v[b])
                invariant
                    a <= b <= v.len(),
                    skip_word(v@, a as int) == skip_word(v@, b as int),
                decreases v.len() - b,
            {
                b += 1;
            }
            proof {
                lemma_skip_ws_bounds(v@, old_i);
                assert(!is_ws(v@[a as int]));
                assert(skip_word(v@, a as int) == skip_word(v@, a + 1));
            }
            let w = slice_chars(v, a, b);
            let ghost wf = words_from(v@, old_i);
            assert(wf == seq![v@.subrange(a as int, b as int)] + words_from(v@, b as int));
            assert(wf[0] == w@);
            assert forall|k: int| 0 <= k < words_from(v@, b as int).len() implies #[trigger] words_from(
                v@,
                b as int,
            )[k] == words(v@)[r@.len() + 1 + k] by {
                assert(wf[k + 1] == words_from(v@, b as int)[k]);
            }
            r.push(w);
            i = b;
        }
    }
    assert(words_from(v@, i as int) =~= Seq::<Seq<char>>::empty());
    r
}

/// `s.lines()`, collected.
pub fn lines_exec(v: &[char]) -> (r: Vec<Vec<char>>)
    ensures
        r@.len() == lines(v@).len(),
        forall|k: int| 0 <= k < r@.len() ==> #[trigger] r@[k]@ == lines(v@)[k],
{
    let mut r: Vec<Vec<char>> = Vec::new();
    let mut i: usize = 0;
    while i < v.len()
        invariant
            i <= v.len(),
            r@.len() + lines_from(v@, i as int).len() == lines(v@).len(),
            forall|k: int| 0 <= k < r@.len() ==> #[trigger] r@[k]@ == lines(v@)[k],
            forall|k: int|
                0 <= k < lines_from(v@, i as int).len() ==> #[trigger] lines_from(v@, i as int)[k]
                    == lines(v@)[r@.len() + k],
        decreases v.len() - i,
    {
        let ghost lf = lines_from(v@, i as int);
        proof {
            lemma_find_char_from_bounds(v@, '\n', i as int);
        }
        match find_char_exec(v, '\n', i) {
            Some(j) => {
                let mut e = j;
                if e > i && v[e - 1] == '\r' {
                    e = e - 1;
                }
                let l = slice_chars(v, i, e);
                assert(l@ =~= strip_cr(v@.subrange(i as int, j as int)));
                assert(lf == seq![strip_cr(v@.subrange(i as int, j as int))] + lines_from(
                    v@,
                    j + 1,
                ));
                assert(lf[0] == l@);
                assert forall|k: int| 0 <= k < lines_from(v@, j + 1).len() implies #[trigger] lines_from(
                    v@,
                    j + 1,
                )[k] == lines(v@)[r@.len() + 1 + k] by {
                    assert(lf[k + 1] == lines_from(v@, j + 1)[k]);
                }
                r.push(l);
                i = j + 1;
            },
            None => {
                let l = slice_chars(v, i, v.len());
                assert(lf == seq![v@.subrange(i as int, v@.len() as int)]);
                assert(lf[0] == l@);
                r.push(l);
                i = v.len();
                assert(lines_from(v@, i as int) =~= Seq::<Seq<char>>::empty());
            },
        }
    }
    r
}

/// The value of the digits from index `from` on, read left to right; `None`
/// when a non-digit occurs or the value would exceed `limit`.
fn digits_upto(v: &[char], from: usize, limit: u64) -> (r: Option<u64>)
    requires
        from <= v.len(),
        limit >= 9,
    ensures
        match r {
            Some(x) => all_digits(v@.skip(from as int)) && x == digits_value(v@.skip(from as int))
                && x <= limit,
            None => !all_digits(v@.skip(from as int)) || digits_value(v@.skip(from as int))
                > limit,
        },
{
    let ghost d = v@.skip(from as int);
    let mut acc: u64 = 0;
    let mut i = from;
    while i < v.len()
        invariant
            from <= i <= v.len(),
            d == v@.skip(from as int),
            all_digits(d.take(i - from)),
            acc == digits_value(d.take(i - from)),
            acc <= limit,
            limit >= 9,
        decreases v.len() - i,
    {
        let c = v[i];
        if !('0' <= c && c <= '9') {
            assert(d[i - from] == c);
            return None;
        }
        let dig = (c as u32 - '0' as u32) as u64;
        assert(dig <= 9);
        proof {
            assert(d.take(i - from).push(c) =~= d.take(i + 1 - from));
            lemma_digits_value_push(d.take(i - from), c);
        }
        if acc > (limit - dig) / 10 {
            proof {
                assert(acc * 10 + dig > limit) by (nonlinear_arith)
                    requires
                        acc > (limit - dig) / 10,
                        dig <= 9,
                        dig <= limit || acc > 0,
                ;
                if all_digits(d) {
                    lemma_digits_value_prefix_le(d, i + 1 - from);
                }
            }
            return None;
        }
        proof {
            assert(acc * 10 + dig <= limit) by (nonlinear_arith)
                requires
                    acc <= (limit - dig) / 10,
                    dig <= limit,
            ;
        }
        acc = acc * 10 + dig;
        i += 1;
    }
    assert(d.take(i - from) =~= d);
    Some(acc)
}

/// `s.parse::<i32>().ok()`.
pub fn parse_i32(v: &[char]) -> (r: Option<i32>)
    ensures
        r == parse_i32_spec(v@),
{
    if v.len() == 0 {
        return None;
    }
    let neg = v[0] == '-';
    let signed = v[0] == '+' || neg;
    let from: usize = if signed {
        1
    } else {
        0
    };
    let ghost d = v@.skip(from as int);
    assert(signed ==> d =~= v@.drop_first());
    assert(!signed ==> d =~= v@);
    if from == v.len() {
        return None;
    }
    let limit: u64 = if neg {
        2147483648
    } else {
        2147483647
    };
    match digits_upto(v, from, limit) {
        Some(x) => {
            if neg {
                if x == 2147483648 {
                    Some(i32::MIN)
                } else {
                    Some(-(x as i32))
                }
            } else {
                Some(x as i32)
            }
        },
        None => None,
    }
}

/// `s.parse::<u64>().ok()`.
pub fn parse_u64(v: &[char]) -> (r: Option<u64>)
    ensures
        r == parse_u64_spec(v@),
{
    if v.len() == 0 || v[0] == '-' {
        return None;
    }
    let from: usize = if v[0] == '+' {
        1
    } else {
        0
    };
    let ghost d = v@.skip(from as int);
    assert(from == 1 ==> d =~= v@.drop_first());
    assert(from == 0 ==> d =~= v@);
    if from == v.len() {
        return None;
    }
    digits_upto(v, from, u64::MAX)
}

} // verus!
