//! Character-level helpers shared by the BMS and bmson parsers.
//!
//! Every parser in this crate works on sequences of `char`: an input `&str`
//! is first collected with [`chars_of`], scanned, and the pieces that end up
//! in a result are turned back into `String`s with [`string_from`].

use vstd::prelude::*;

verus! {

// ---------------------------------------------------------------------------
// Character classes
// ---------------------------------------------------------------------------

/// Unicode `White_Space`, the class used by `str::trim` and
/// `str::split_whitespace`.
pub open spec fn is_ws(c: char) -> bool {
    ||| ('\t' <= c && c <= '\r')
    ||| c == ' '
    ||| c == '\u{85}'
    ||| c == '\u{a0}'
    ||| c == '\u{1680}'
    ||| ('\u{2000}' <= c && c <= '\u{200a}')
    ||| c == '\u{2028}'
    ||| c == '\u{2029}'
    ||| c == '\u{202f}'
    ||| c == '\u{205f}'
    ||| c == '\u{3000}'
}

/// ASCII whitespace as `char::is_ascii_whitespace` defines it.
pub open spec fn is_ascii_ws(c: char) -> bool {
    c == ' ' || c == '\t' || c == '\n' || c == '\x0C' || c == '\r'
}

pub open spec fn is_digit(c: char) -> bool {
    '0' <= c && c <= '9'
}

pub open spec fn is_upper(c: char) -> bool {
    'A' <= c && c <= 'Z'
}

pub open spec fn is_lower(c: char) -> bool {
    'a' <= c && c <= 'z'
}

/// `0`-`9`, `A`-`Z`, `a`-`z`.
pub open spec fn is_alnum(c: char) -> bool {
    is_digit(c) || is_upper(c) || is_lower(c)
}

/// ASCII upper-casing of one character (`char::to_ascii_uppercase`).
pub open spec fn to_upper(c: char) -> char {
    if is_lower(c) {
        ((c as u32) - 32) as char
    } else {
        c
    }
}

/// ASCII lower-casing of one character (`char::to_ascii_lowercase`).
pub open spec fn to_lower(c: char) -> char {
    if is_upper(c) {
        ((c as u32) + 32) as char
    } else {
        c
    }
}

/// ASCII upper-casing of a whole sequence.
pub open spec fn upper(s: Seq<char>) -> Seq<char> {
    Seq::new(s.len(), |i: int| to_upper(s[i]))
}

/// ASCII lower-casing of a whole sequence.
pub open spec fn lower(s: Seq<char>) -> Seq<char> {
    Seq::new(s.len(), |i: int| to_lower(s[i]))
}

/// `eq_ignore_ascii_case`.
pub open spec fn eq_ignore_case(a: Seq<char>, b: Seq<char>) -> bool {
    upper(a) == upper(b)
}

pub fn is_ws_char(c: char) -> (r: bool)
    ensures
        r == is_ws(c),
{
    ('\t' <= c && c <= '\r') || c == ' ' || c == '\u{85}' || c == '\u{a0}' || c == '\u{1680}'
        || ('\u{2000}' <= c && c <= '\u{200a}') || c == '\u{2028}' || c == '\u{2029}' || c
        == '\u{202f}' || c == '\u{205f}' || c == '\u{3000}'
}

pub fn is_ascii_ws_char(c: char) -> (r: bool)
    ensures
        r == is_ascii_ws(c),
{
    c == ' ' || c == '\t' || c == '\n' || c == '\x0C' || c == '\r'
}

pub fn is_digit_char(c: char) -> (r: bool)
    ensures
        r == is_digit(c),
{
    '0' <= c && c <= '9'
}

pub fn is_alnum_char(c: char) -> (r: bool)
    ensures
        r == is_alnum(c),
{
    ('0' <= c && c <= '9') || ('A' <= c && c <= 'Z') || ('a' <= c && c <= 'z')
}

pub fn upper_char(c: char) -> (r: char)
    ensures
        r == to_upper(c),
{
    if 'a' <= c && c <= 'z' {
        let v: u32 = (c as u32) - 32;
        (v as u8) as char
    } else {
        c
    }
}

pub fn lower_char(c: char) -> (r: char)
    ensures
        r == to_lower(c),
{
    if 'A' <= c && c <= 'Z' {
        let v: u32 = (c as u32) + 32;
        (v as u8) as char
    } else {
        c
    }
}

// ---------------------------------------------------------------------------
// Conversions between `str`/`String` and character vectors
// ---------------------------------------------------------------------------

/// `String::push`: appends one character at the end.
#[verifier::external_body]
fn string_push(s: &mut String, c: char)
    ensures
        final(s)@ == old(s)@.push(c),
{
    s.push(c);
}

/// Collects the characters of `s` into a vector.
pub fn chars_of(s: &str) -> (r: Vec<char>)
    ensures
        r@ == s@,
{
    let mut out: Vec<char> = Vec::new();
    for c in it: s.chars()
        invariant
            out@ == it.seq().take(it.index() as int),
    {
        out.push(c);
    }
    proof {
        broadcast use vstd::string::group_string_axioms;
    }
    out
}

/// Builds a `String` holding exactly the characters of `cs`.
pub fn string_from(cs: &[char]) -> (r: String)
    ensures
        r@ == cs@,
{
    let mut s = String::new();
    let mut i: usize = 0;
    while i < cs.len()
        invariant
            i <= cs.len(),
            s@ == cs@.take(i as int),
        decreases cs.len() - i,
    {
        string_push(&mut s, cs[i]);
        i = i + 1;
        assert(s@ =~= cs@.take(i as int));
    }
    assert(cs@.take(i as int) =~= cs@);
    s
}

/// Builds a `String` from the characters `cs[start..end]`.
pub fn string_from_range(cs: &[char], start: usize, end: usize) -> (r: String)
    requires
        start <= end <= cs@.len(),
    ensures
        r@ == cs@.subrange(start as int, end as int),
{
    let mut s = String::new();
    let mut i: usize = start;
    while i < end
        invariant
            start <= i <= end <= cs@.len(),
            s@ == cs@.subrange(start as int, i as int),
        decreases end - i,
    {
        string_push(&mut s, cs[i]);
        i = i + 1;
        assert(s@ =~= cs@.subrange(start as int, i as int));
    }
    s
}

/// Copies `cs[start..end]` into a fresh vector.
pub fn copy_range(cs: &[char], start: usize, end: usize) -> (r: Vec<char>)
    requires
        start <= end <= cs@.len(),
    ensures
        r@ == cs@.subrange(start as int, end as int),
{
    let mut v: Vec<char> = Vec::new();
    let mut i: usize = start;
    while i < end
        invariant
            start <= i <= end <= cs@.len(),
            v@ == cs@.subrange(start as int, i as int),
        decreases end - i,
    {
        v.push(cs[i]);
        i = i + 1;
        assert(v@ =~= cs@.subrange(start as int, i as int));
    }
    v
}

/// Whether `cs` equals the characters of the literal `lit` (held as a vector).
pub fn seq_eq(a: &[char], b: &[char]) -> (r: bool)
    ensures
        r == (a@ == b@),
{
    if a.len() != b.len() {
        return false;
    }
    let mut i: usize = 0;
    while i < a.len()
        invariant
            a@.len() == b@.len(),
            i <= a@.len(),
            forall|j: int| 0 <= j < i ==> a@[j] == b@[j],
        decreases a.len() - i,
    {
        if a[i] != b[i] {
            return false;
        }
        i = i + 1;
    }
    assert(a@ =~= b@);
    true
}

/// `eq_ignore_ascii_case` on character slices.
pub fn eq_ignore_case_exec(a: &[char], b: &[char]) -> (r: bool)
    ensures
        r == eq_ignore_case(a@, b@),
{
    if a.len() != b.len() {
        assert(upper(a@).len() != upper(b@).len());
        return false;
    }
    let mut i: usize = 0;
    while i < a.len()
        invariant
            a@.len() == b@.len(),
            i <= a@.len(),
            forall|j: int| 0 <= j < i ==> to_upper(a@[j]) == to_upper(b@[j]),
        decreases a.len() - i,
    {
        if upper_char(a[i]) != upper_char(b[i]) {
            assert(upper(a@)[i as int] != upper(b@)[i as int]);
            return false;
        }
        i = i + 1;
    }
    assert(upper(a@) =~= upper(b@));
    true
}

// ---------------------------------------------------------------------------
// Trimming
// ---------------------------------------------------------------------------

/// `str::trim_start`.
pub open spec fn trim_start(s: Seq<char>) -> Seq<char>
    decreases s.len(),
{
    if s.len() > 0 && is_ws(s[0]) {
        trim_start(s.drop_first())
    } else {
        s
    }
}

/// `str::trim_end`.
pub open spec fn trim_end(s: Seq<char>) -> Seq<char>
    decreases s.len(),
{
    if s.len() > 0 && is_ws(s.last()) {
        trim_end(s.drop_last())
    } else {
        s
    }
}

/// `str::trim`.
pub open spec fn trim(s: Seq<char>) -> Seq<char> {
    trim_end(trim_start(s))
}

/// Number of leading whitespace characters.
pub open spec fn lead_ws(s: Seq<char>) -> nat
    decreases s.len(),
{
    if s.len() > 0 && is_ws(s[0]) {
        1 + lead_ws(s.drop_first())
    } else {
        0
    }
}

/// Number of trailing whitespace characters.
pub open spec fn trail_ws(s: Seq<char>) -> nat
    decreases s.len(),
{
    if s.len() > 0 && is_ws(s.last()) {
        1 + trail_ws(s.drop_last())
    } else {
        0
    }
}

pub proof fn lemma_trim_start(s: Seq<char>)
    ensures
        lead_ws(s) <= s.len(),
        trim_start(s) == s.skip(lead_ws(s) as int),
        forall|j: int| 0 <= j < lead_ws(s) ==> is_ws(#[trigger] s[j]),
        lead_ws(s) < s.len() ==> !is_ws(s[lead_ws(s) as int]),
    decreases s.len(),
{
    if s.len() > 0 && is_ws(s[0]) {
        lemma_trim_start(s.drop_first());
        assert(s.drop_first().skip(lead_ws(s.drop_first()) as int) =~= s.skip(
            lead_ws(s) as int,
        ));
        assert forall|j: int| 0 <= j < lead_ws(s) implies is_ws(#[trigger] s[j]) by {
            if j > 0 {
                assert(s[j] == s.drop_first()[j - 1]);
            }
        }
        if lead_ws(s) < s.len() {
            assert(s[lead_ws(s) as int] == s.drop_first()[lead_ws(s.drop_first()) as int]);
        }
    } else {
        assert(s.skip(0) =~= s);
    }
}

pub proof fn lemma_trim_end(s: Seq<char>)
    ensures
        trail_ws(s) <= s.len(),
        trim_end(s) == s.take(s.len() - trail_ws(s)),
        forall|j: int| s.len() - trail_ws(s) <= j < s.len() ==> is_ws(#[trigger] s[j]),
        trail_ws(s) < s.len() ==> !is_ws(s[s.len() - trail_ws(s) - 1]),
    decreases s.len(),
{
    if s.len() > 0 && is_ws(s.last()) {
        lemma_trim_end(s.drop_last());
        assert(s.drop_last().take(s.drop_last().len() - trail_ws(s.drop_last())) =~= s.take(
            s.len() - trail_ws(s),
        ));
        assert forall|j: int| s.len() - trail_ws(s) <= j < s.len() implies is_ws(
            #[trigger] s[j],
        ) by {
            if j < s.len() - 1 {
                assert(s[j] == s.drop_last()[j]);
            }
        }
        if trail_ws(s) < s.len() {
            assert(s[s.len() - trail_ws(s) - 1] == s.drop_last()[s.drop_last().len() - trail_ws(
                s.drop_last(),
            ) - 1]);
        }
    } else {
        assert(s.take(s.len() as int) =~= s);
    }
}

/// Finds the bounds of `trim(cs[from..to])` inside `cs`.
pub fn trim_range(cs: &[char], from: usize, to: usize) -> (r: (usize, usize))
    requires
        from <= to <= cs@.len(),
    ensures
        from <= r.0 <= r.1 <= to,
        trim(cs@.subrange(from as int, to as int)) == cs@.subrange(r.0 as int, r.1 as int),
{
    let ghost s = cs@.subrange(from as int, to as int);
    let mut a: usize = from;
    while a < to && is_ws_char(cs[a])
        invariant
            from <= a <= to <= cs@.len(),
            forall|j: int| from <= j < a ==> is_ws(#[trigger] cs@[j]),
        decreases to - a,
    {
        a = a + 1;
    }
    proof {
        lemma_trim_start(s);
        // lead_ws(s) == a - from
        if lead_ws(s) < a - from {
            assert(s[lead_ws(s) as int] == cs@[from + lead_ws(s)]);
        }
        if lead_ws(s) > a - from {
            assert(s[a - from] == cs@[a as int]);
        }
        assert(lead_ws(s) == a - from);
        assert(trim_start(s) =~= cs@.subrange(a as int, to as int));
    }
    let mut b: usize = to;
    while b > a && is_ws_char(cs[b - 1])
        invariant
            from <= a <= b <= to <= cs@.len(),
            forall|j: int| b <= j < to ==> is_ws(#[trigger] cs@[j]),
        decreases b - a,
    {
        b = b - 1;
    }
    proof {
        let t = cs@.subrange(a as int, to as int);
        lemma_trim_end(t);
        if trail_ws(t) < to - b {
            assert(t[t.len() - trail_ws(t) - 1] == cs@[to - trail_ws(t) - 1]);
        }
        if trail_ws(t) > to - b {
            assert(t[b - a - 1] == cs@[b - 1]);
        }
        assert(trail_ws(t) == to - b);
        assert(trim_end(t) =~= cs@.subrange(a as int, b as int));
    }
    (a, b)
}

// ---------------------------------------------------------------------------
// Searching
// ---------------------------------------------------------------------------

/// Index of the first occurrence of `c` in `s`, or `-1`.
pub open spec fn first_index(s: Seq<char>, c: char) -> int
    decreases s.len(),
{
    if s.len() == 0 {
        -1
    } else if s[0] == c {
        0
    } else {
        let r = first_index(s.drop_first(), c);
        if r < 0 {
            -1
        } else {
            r + 1
        }
    }
}

pub proof fn lemma_first_index(s: Seq<char>, c: char)
    ensures
        -1 <= first_index(s, c) < s.len(),
        first_index(s, c) >= 0 ==> s[first_index(s, c)] == c,
        forall|j: int|
            0 <= j < s.len() && (first_index(s, c) < 0 || j < first_index(s, c)) ==> #[trigger] s[j]
                != c,
    decreases s.len(),
{
    if s.len() > 0 && s[0] != c {
        lemma_first_index(s.drop_first(), c);
        assert forall|j: int|
            0 <= j < s.len() && (first_index(s, c) < 0 || j < first_index(s, c)) implies #[trigger] s[j]
                != c by {
            if j > 0 {
                assert(s[j] == s.drop_first()[j - 1]);
            }
        }
    }
}

/// Characterizes `first_index` by the property it has.
pub proof fn lemma_first_index_is(s: Seq<char>, c: char, k: int)
    requires
        -1 <= k < s.len(),
        k >= 0 ==> s[k] == c,
        forall|j: int| 0 <= j < s.len() && (k < 0 || j < k) ==> #[trigger] s[j] != c,
    ensures
        first_index(s, c) == k,
{
    lemma_first_index(s, c);
    let f = first_index(s, c);
    if f >= 0 && (k < 0 || f < k) {
        assert(s[f] != c);
    }
    if k >= 0 && (f < 0 || k < f) {
        assert(s[k] != c);
    }
}

/// First index of `c` in `cs[from..to]`, counted from `from`, or `to` if absent.
pub fn find_char(cs: &[char], from: usize, to: usize, c: char) -> (r: usize)
    requires
        from <= to <= cs@.len(),
    ensures
        from <= r <= to,
        r < to ==> cs@[r as int] == c,
        forall|j: int| from <= j < r ==> #[trigger] cs@[j] != c,
        first_index(cs@.subrange(from as int, to as int), c) == if r == to {
            -1
        } else {
            r - from
        },
{
    let mut i: usize = from;
    while i < to && cs[i] != c
        invariant
            from <= i <= to <= cs@.len(),
            forall|j: int| from <= j < i ==> #[trigger] cs@[j] != c,
        decreases to - i,
    {
        i = i + 1;
    }
    proof {
        let s = cs@.subrange(from as int, to as int);
        let k: int = if i == to {
            -1
        } else {
            i - from
        };
        assert forall|j: int| 0 <= j < s.len() && (k < 0 || j < k) implies #[trigger] s[j]
            != c by {
            assert(s[j] == cs@[from + j]);
        }
        lemma_first_index_is(s, c, k);
    }
    i
}

/// Whether `s` starts with `p`.
pub open spec fn starts_with(s: Seq<char>, p: Seq<char>) -> bool {
    p.len() <= s.len() && s.take(p.len() as int) == p
}

/// Whether `s` ends with `p`.
pub open spec fn ends_with(s: Seq<char>, p: Seq<char>) -> bool {
    p.len() <= s.len() && s.skip(s.len() - p.len()) == p
}

// ---------------------------------------------------------------------------
// Integers, as the standard library's `FromStr` reads them
// ---------------------------------------------------------------------------

pub open spec fn all_digits(s: Seq<char>) -> bool {
    forall|i: int| 0 <= i < s.len() ==> is_digit(#[trigger] s[i])
}

pub open spec fn digit_value(c: char) -> nat {
    ((c as int) - ('0' as int)) as nat
}

/// Decimal value of a run of digits.
pub open spec fn digits_value(s: Seq<char>) -> nat
    decreases s.len(),
{
    if s.len() == 0 {
        0
    } else {
        digits_value(s.drop_last()) * 10 + digit_value(s.last())
    }
}

/// The integer that the standard library's integer `FromStr` reads from
/// `s`, before any range check: an optional sign (`-` only when `signed`),
/// then at least one decimal digit and nothing else.
pub open spec fn int_syntax(s: Seq<char>, signed: bool) -> Option<int> {
    if s.len() > 0 && s[0] == '-' {
        if signed && s.len() > 1 && all_digits(s.drop_first()) {
            Some(-(digits_value(s.drop_first()) as int))
        } else {
            None
        }
    } else if s.len() > 0 && s[0] == '+' {
        if s.len() > 1 && all_digits(s.drop_first()) {
            Some(digits_value(s.drop_first()) as int)
        } else {
            None
        }
    } else if s.len() > 0 && all_digits(s) {
        Some(digits_value(s) as int)
    } else {
        None
    }
}

/// `s.parse::<T>().ok()` for an integer type `T` whose values are exactly
/// `lo..=hi`; `signed` says whether `T` accepts a leading `-`.
pub open spec fn parse_int(s: Seq<char>, signed: bool, lo: int, hi: int) -> Option<int> {
    match int_syntax(s, signed) {
        Some(v) => if lo <= v && v <= hi {
            Some(v)
        } else {
            None
        },
        None => None,
    }
}

pub proof fn lemma_digits_value_step(s: Seq<char>, i: int)
    requires
        0 <= i < s.len(),
    ensures
        digits_value(s.take(i + 1)) == digits_value(s.take(i)) * 10 + digit_value(s[i]),
{
    assert(s.take(i + 1).drop_last() =~= s.take(i));
}

pub proof fn lemma_digits_value_mono(s: Seq<char>, i: int, j: int)
    requires
        0 <= i <= j <= s.len(),
    ensures
        digits_value(s.take(i)) <= digits_value(s.take(j)),
    decreases j - i,
{
    if i < j {
        lemma_digits_value_mono(s, i, j - 1);
        lemma_digits_value_step(s, j - 1);
    }
}

/// Reads the digits `cs[from..to]` (all of which must be digits) as a number
/// not above `max`; `None` when the number is above `max`.
fn digits_upto(cs: &[char], from: usize, to: usize, max: u64) -> (r: Option<u64>)
    requires
        from < to <= cs@.len(),
        all_digits(cs@.subrange(from as int, to as int)),
    ensures
        match r {
            Some(v) => v == digits_value(cs@.subrange(from as int, to as int)) && v <= max,
            None => digits_value(cs@.subrange(from as int, to as int)) > max,
        },
{
    let ghost s = cs@.subrange(from as int, to as int);
    let mut acc: u64 = 0;
    let mut i: usize = from;
    assert(s.take(0) =~= Seq::<char>::empty());
    while i < to
        invariant
            from <= i <= to <= cs@.len(),
            s == cs@.subrange(from as int, to as int),
            all_digits(s),
            acc as nat == digits_value(s.take(i - from)),
            acc <= max,
        decreases to - i,
    {
        let c = cs[i];
        assert(s[i - from] == c);
        assert(is_digit(s[i - from]));
        let d: u64 = ((c as u32) - ('0' as u32)) as u64;
        proof {
            lemma_digits_value_step(s, i - from);
        }
        if d > max || acc > (max - d) / 10 {
            proof {
                lemma_digits_value_mono(s, i - from + 1, s.len() as int);
                assert(s.take(s.len() as int) =~= s);
                assert(acc * 10 + d > max) by (nonlinear_arith)
                    requires
                        d > max || acc > (max - d) / 10,
                ;
            }
            return None;
        }
        proof {
            assert(acc * 10 + d <= max) by (nonlinear_arith)
                requires
                    acc <= (max - d) / 10,
                    d <= max,
            ;
        }
        acc = acc * 10 + d;
        i = i + 1;
    }
    assert(s.take(s.len() as int) =~= s);
    Some(acc)
}

/// `s.parse::<T>().ok()` for an unsigned integer type `T` whose largest value
/// is `max`, read from `cs[from..to]`.
pub fn parse_unsigned(cs: &[char], from: usize, to: usize, max: u64) -> (r: Option<u64>)
    requires
        from <= to <= cs@.len(),
    ensures
        match r {
            Some(v) => parse_int(cs@.subrange(from as int, to as int), false, 0, max as int)
                == Some(v as int),
            None => parse_int(cs@.subrange(from as int, to as int), false, 0, max as int) is None,
        },
{
    let ghost s = cs@.subrange(from as int, to as int);
    if from == to {
        return None;
    }
    let mut start = from;
    if cs[from] == '-' {
        return None;
    }
    if cs[from] == '+' {
        start = from + 1;
        if start == to {
            return None;
        }
    }
    let mut i = start;
    while i < to
        invariant
            start <= i <= to <= cs@.len(),
            start == from || start == from + 1,
            from < to,
            s == cs@.subrange(from as int, to as int),
            start == from ==> cs@[from as int] != '+' && cs@[from as int] != '-',
            start == from + 1 ==> cs@[from as int] == '+' && start < to,
            forall|j: int| start <= j < i ==> is_digit(#[trigger] cs@[j]),
        decreases to - i,
    {
        if !is_digit_char(cs[i]) {
            proof {
                if start == from {
                    assert(!is_digit(s[i - from]));
                } else {
                    assert(!is_digit(s.drop_first()[i - from - 1]));
                }
            }
            return None;
        }
        i = i + 1;
    }
    let ghost body = cs@.subrange(start as int, to as int);
    proof {
        if start == from {
            assert(body =~= s);
        } else {
            assert(body =~= s.drop_first());
        }
        assert(all_digits(body));
    }
    let v = digits_upto(cs, start, to, max);
    v
}

/// `s.parse::<T>().ok()` for a signed integer type `T` whose values are
/// `lo..=hi` (with `lo <= 0 <= hi`), read from `cs[from..to]`.
pub fn parse_signed(cs: &[char], from: usize, to: usize, lo: i64, hi: i64) -> (r: Option<i64>)
    requires
        from <= to <= cs@.len(),
        lo <= 0 <= hi,
    ensures
        match r {
            Some(v) => parse_int(cs@.subrange(from as int, to as int), true, lo as int, hi as int)
                == Some(v as int),
            None => parse_int(cs@.subrange(from as int, to as int), true, lo as int, hi as int) is None,
        },
{
    let ghost s = cs@.subrange(from as int, to as int);
    if from == to {
        return None;
    }
    let neg = cs[from] == '-';
    let mut start = from;
    if cs[from] == '-' || cs[from] == '+' {
        start = from + 1;
        if start == to {
            return None;
        }
    }
    let mut i = start;
    while i < to
        invariant
            start <= i <= to <= cs@.len(),
            start == from || start == from + 1,
            from < to,
            s == cs@.subrange(from as int, to as int),
            start == from ==> cs@[from as int] != '+' && cs@[from as int] != '-',
            start == from + 1 ==> (cs@[from as int] == '+' || cs@[from as int] == '-') && start < to,
            forall|j: int| start <= j < i ==> is_digit(#[trigger] cs@[j]),
        decreases to - i,
    {
        if !is_digit_char(cs[i]) {
            proof {
                if start == from {
                    assert(!is_digit(s[i - from]));
                } else {
                    assert(!is_digit(s.drop_first()[i - from - 1]));
                }
            }
            return None;
        }
        i = i + 1;
    }
    let ghost body = cs@.subrange(start as int, to as int);
    proof {
        if start == from {
            assert(body =~= s);
        } else {
            assert(body =~= s.drop_first());
        }
        assert(all_digits(body));
    }
    if neg {
        let m: u64 = (0i128 - (lo as i128)) as u64;
        match digits_upto(cs, start, to, m) {
            Some(v) => Some((0i128 - (v as i128)) as i64),
            None => None,
        }
    } else {
        match digits_upto(cs, start, to, hi as u64) {
            Some(v) => Some(v as i64),
            None => None,
        }
    }
}

// ---------------------------------------------------------------------------
// Floating-point literals, as `f64::from_str` accepts them
// ---------------------------------------------------------------------------

/// Number of `'.'` characters in `s`.
pub open spec fn count_char(s: Seq<char>, c: char) -> nat
    decreases s.len(),
{
    if s.len() == 0 {
        0
    } else {
        count_char(s.drop_last(), c) + if s.last() == c {
            1nat
        } else {
            0nat
        }
    }
}

/// `Digit+ | Digit+ '.' Digit* | Digit* '.' Digit+`.
pub open spec fn is_mantissa(s: Seq<char>) -> bool {
    &&& forall|i: int| 0 <= i < s.len() ==> (is_digit(#[trigger] s[i]) || s[i] == '.')
    &&& count_char(s, '.') <= 1
    &&& exists|i: int| 0 <= i < s.len() && is_digit(#[trigger] s[i])
}

/// `Sign? Digit+`.
pub open spec fn is_exponent(s: Seq<char>) -> bool {
    if s.len() > 0 && (s[0] == '+' || s[0] == '-') {
        s.len() > 1 && all_digits(s.drop_first())
    } else {
        s.len() > 0 && all_digits(s)
    }
}

/// `Number ::= Mantissa Exp?` on an already lower-cased text.
pub open spec fn is_number(s: Seq<char>) -> bool {
    let e = first_index(s, 'e');
    if e < 0 {
        is_mantissa(s)
    } else {
        is_mantissa(s.take(e)) && is_exponent(s.skip(e + 1))
    }
}

/// Whether `f64::from_str` accepts `s`: the documented grammar
/// `Sign? ('inf' | 'infinity' | 'nan' | Number)`, matched after ASCII
/// lower-casing.
pub open spec fn is_float_literal(s: Seq<char>) -> bool {
    let l = lower(s);
    let body = if l.len() > 0 && (l[0] == '+' || l[0] == '-') {
        l.drop_first()
    } else {
        l
    };
    body == seq!['i', 'n', 'f'] || body == seq!['i', 'n', 'f', 'i', 'n', 'i', 't', 'y'] || body
        == seq!['n', 'a', 'n'] || is_number(body)
}

proof fn lemma_count_step(s: Seq<char>, i: int, c: char)
    requires
        0 <= i < s.len(),
    ensures
        count_char(s.take(i + 1), c) == count_char(s.take(i), c) + if s[i] == c {
            1nat
        } else {
            0nat
        },
{
    assert(s.take(i + 1).drop_last() =~= s.take(i));
}

/// Checks `is_mantissa` on `l[from..to]`.
fn mantissa_ok(l: &[char], from: usize, to: usize) -> (r: bool)
    requires
        from <= to <= l@.len(),
    ensures
        r == is_mantissa(l@.subrange(from as int, to as int)),
{
    let ghost s = l@.subrange(from as int, to as int);
    let mut dots: usize = 0;
    let mut digits: bool = false;
    let mut i = from;
    assert(s.take(0) =~= Seq::<char>::empty());
    while i < to
        invariant
            from <= i <= to <= l@.len(),
            s == l@.subrange(from as int, to as int),
            forall|j: int| 0 <= j < i - from ==> (is_digit(#[trigger] s[j]) || s[j] == '.'),
            dots == count_char(s.take(i - from), '.'),
            dots <= 1,
            digits <==> exists|j: int| 0 <= j < i - from && is_digit(#[trigger] s[j]),
        decreases to - i,
    {
        let c = l[i];
        assert(s[i - from] == c);
        proof {
            lemma_count_step(s, i - from, '.');
        }
        if c == '.' {
            if dots == 1 {
                proof {
                    assert(s.take(i - from + 1) == s.take(i - from + 1));
                    lemma_count_mono(s, i - from + 1);
                }
                return false;
            }
            dots = dots + 1;
        } else if is_digit_char(c) {
            digits = true;
        } else {
            return false;
        }
        i = i + 1;
    }
    assert(s.take(s.len() as int) =~= s);
    digits
}

proof fn lemma_count_mono(s: Seq<char>, k: int)
    requires
        0 <= k <= s.len(),
    ensures
        count_char(s.take(k), '.') <= count_char(s, '.'),
    decreases s.len() - k,
{
    if k < s.len() {
        lemma_count_mono(s, k + 1);
        lemma_count_step(s, k, '.');
    } else {
        assert(s.take(k) =~= s);
    }
}

/// Checks `is_exponent` on `l[from..to]`.
fn exponent_ok(l: &[char], from: usize, to: usize) -> (r: bool)
    requires
        from <= to <= l@.len(),
    ensures
        r == is_exponent(l@.subrange(from as int, to as int)),
{
    let ghost s = l@.subrange(from as int, to as int);
    if from == to {
        return false;
    }
    let mut start = from;
    if l[from] == '+' || l[from] == '-' {
        start = from + 1;
        if start == to {
            return false;
        }
    }
    let mut i = start;
    while i < to
        invariant
            start <= i <= to <= l@.len(),
            start == from || start == from + 1,
            from < to,
            s == l@.subrange(from as int, to as int),
            start == from ==> l@[from as int] != '+' && l@[from as int] != '-',
            start == from + 1 ==> (l@[from as int] == '+' || l@[from as int] == '-') && start < to,
            forall|j: int| start <= j < i ==> is_digit(#[trigger] l@[j]),
        decreases to - i,
    {
        if !is_digit_char(l[i]) {
            proof {
                if start == from {
                    assert(!is_digit(s[i - from]));
                } else {
                    assert(!is_digit(s.drop_first()[i - from - 1]));
                }
            }
            return false;
        }
        i = i + 1;
    }
    proof {
        if start == from {
            assert forall|j: int| 0 <= j < s.len() implies is_digit(#[trigger] s[j]) by {
                assert(s[j] == l@[from + j]);
            }
        } else {
            assert forall|j: int| 0 <= j < s.drop_first().len() implies is_digit(
                #[trigger] s.drop_first()[j],
            ) by {
                assert(s.drop_first()[j] == l@[from + 1 + j]);
            }
        }
    }
    true
}

/// Lower-cases `cs[from..to]` into a fresh vector.
pub fn lower_range(cs: &[char], from: usize, to: usize) -> (r: Vec<char>)
    requires
        from <= to <= cs@.len(),
    ensures
        r@ == lower(cs@.subrange(from as int, to as int)),
{
    let mut v: Vec<char> = Vec::new();
    let mut i = from;
    while i < to
        invariant
            from <= i <= to <= cs@.len(),
            v@ == lower(cs@.subrange(from as int, i as int)),
        decreases to - i,
    {
        v.push(lower_char(cs[i]));
        i = i + 1;
        assert(v@ =~= lower(cs@.subrange(from as int, i as int)));
    }
    v
}

/// Upper-cases `cs[from..to]` into a fresh vector.
pub fn upper_range(cs: &[char], from: usize, to: usize) -> (r: Vec<char>)
    requires
        from <= to <= cs@.len(),
    ensures
        r@ == upper(cs@.subrange(from as int, to as int)),
{
    let mut v: Vec<char> = Vec::new();
    let mut i = from;
    while i < to
        invariant
            from <= i <= to <= cs@.len(),
            v@ == upper(cs@.subrange(from as int, i as int)),
        decreases to - i,
    {
        v.push(upper_char(cs[i]));
        i = i + 1;
        assert(v@ =~= upper(cs@.subrange(from as int, i as int)));
    }
    v
}

/// Whether `f64::from_str` accepts the text `cs[from..to]`.
pub fn float_literal_ok(cs: &[char], from: usize, to: usize) -> (r: bool)
    requires
        from <= to <= cs@.len(),
    ensures
        r == is_float_literal(cs@.subrange(from as int, to as int)),
{
    let l = lower_range(cs, from, to);
    let mut start: usize = 0;
    if l.len() > 0 && (l[0] == '+' || l[0] == '-') {
        start = 1;
    }
    let ghost body = l@.subrange(start as int, l@.len() as int);
    proof {
        if start == 1 {
            assert(body =~= l@.drop_first());
        } else {
            assert(body =~= l@);
        }
    }
    let n = l.len() - start;
    if n == 3 && l[start] == 'i' && l[start + 1] == 'n' && l[start + 2] == 'f' {
        assert(body =~= seq!['i', 'n', 'f']);
        return true;
    }
    if n == 8 && l[start] == 'i' && l[start + 1] == 'n' && l[start + 2] == 'f' && l[start + 3]
        == 'i' && l[start + 4] == 'n' && l[start + 5] == 'i' && l[start + 6] == 't' && l[start
        + 7] == 'y' {
        assert(body =~= seq!['i', 'n', 'f', 'i', 'n', 'i', 't', 'y']);
        return true;
    }
    if n == 3 && l[start] == 'n' && l[start + 1] == 'a' && l[start + 2] == 'n' {
        assert(body =~= seq!['n', 'a', 'n']);
        return true;
    }
    proof {
        if body == seq!['i', 'n', 'f'] {
            assert(body[0] == l@[start as int]);
            assert(body[1] == l@[start + 1]);
            assert(body[2] == l@[start + 2]);
        }
        if body == seq!['n', 'a', 'n'] {
            assert(body[0] == l@[start as int]);
            assert(body[1] == l@[start + 1]);
            assert(body[2] == l@[start + 2]);
        }
        if body == seq!['i', 'n', 'f', 'i', 'n', 'i', 't', 'y'] {
            assert(body[0] == l@[start as int]);
            assert(body[1] == l@[start + 1]);
            assert(body[2] == l@[start + 2]);
            assert(body[3] == l@[start + 3]);
            assert(body[4] == l@[start + 4]);
            assert(body[5] == l@[start + 5]);
            assert(body[6] == l@[start + 6]);
            assert(body[7] == l@[start + 7]);
        }
    }
    let e = find_char(&l, start, l.len(), 'e');
    if e == l.len() {
        mantissa_ok(&l, start, l.len())
    } else {
        proof {
            assert(body.take(e - start) =~= l@.subrange(start as int, e as int));
            assert(body.skip(e - start + 1) =~= l@.subrange(e + 1, l@.len() as int));
        }
        mantissa_ok(&l, start, e) && exponent_ok(&l, e + 1, l.len())
    }
}

} // verus!

verus! {

// ---------------------------------------------------------------------------
// Splitting
// ---------------------------------------------------------------------------

/// `str::split(c)`: the pieces of `s` between occurrences of `c`; there is
/// always at least one.
pub open spec fn split_on(s: Seq<char>, c: char) -> Seq<Seq<char>>
    decreases s.len(),
{
    let k = first_index(s, c);
    if 0 <= k < s.len() {
        seq![s.take(k)] + split_on(s.skip(k + 1), c)
    } else {
        seq![s]
    }
}

/// Index of the first whitespace character of `s`, or its length.
pub open spec fn ws_index(s: Seq<char>) -> int
    decreases s.len(),
{
    if s.len() == 0 {
        0
    } else if is_ws(s[0]) {
        0
    } else {
        1 + ws_index(s.drop_first())
    }
}

/// `str::split_whitespace`: the maximal runs of non-whitespace characters.
pub open spec fn ws_tokens(s: Seq<char>) -> Seq<Seq<char>>
    decreases s.len(),
{
    let t = trim_start(s);
    let k = ws_index(t);
    if t.len() == 0 {
        Seq::empty()
    } else if 0 < k <= t.len() <= s.len() {
        seq![t.take(k)] + ws_tokens(t.skip(k))
    } else {
        Seq::empty()
    }
}

pub proof fn lemma_ws_index(s: Seq<char>)
    ensures
        0 <= ws_index(s) <= s.len(),
        forall|j: int| 0 <= j < ws_index(s) ==> !is_ws(#[trigger] s[j]),
        ws_index(s) < s.len() ==> is_ws(s[ws_index(s)]),
    decreases s.len(),
{
    if s.len() > 0 && !is_ws(s[0]) {
        lemma_ws_index(s.drop_first());
        assert forall|j: int| 0 <= j < ws_index(s) implies !is_ws(#[trigger] s[j]) by {
            if j > 0 {
                assert(s[j] == s.drop_first()[j - 1]);
            }
        }
        if ws_index(s) < s.len() {
            assert(s[ws_index(s)] == s.drop_first()[ws_index(s.drop_first())]);
        }
    }
}

proof fn lemma_ws_index_is(s: Seq<char>, k: int)
    requires
        0 <= k <= s.len(),
        forall|j: int| 0 <= j < k ==> !is_ws(#[trigger] s[j]),
        k < s.len() ==> is_ws(s[k]),
    ensures
        ws_index(s) == k,
{
    lemma_ws_index(s);
    if ws_index(s) < k {
        assert(!is_ws(s[ws_index(s)]));
    }
    if ws_index(s) > k {
        assert(!is_ws(s[k]));
    }
}

/// The ranges of `cs[from..to]` that `str::split(c)` yields, in order.
pub fn split_ranges(cs: &[char], from: usize, to: usize, c: char) -> (r: Vec<(usize, usize)>)
    requires
        from <= to <= cs@.len(),
    ensures
        r@.len() == split_on(cs@.subrange(from as int, to as int), c).len(),
        forall|i: int|
            0 <= i < r@.len() ==> from <= (#[trigger] r@[i]).0 <= r@[i].1 <= to
                && cs@.subrange(r@[i].0 as int, r@[i].1 as int) == split_on(
                cs@.subrange(from as int, to as int),
                c,
            )[i],
{
    let ghost whole = split_on(cs@.subrange(from as int, to as int), c);
    let ghost mut pieces: Seq<Seq<char>> = Seq::empty();
    let mut r: Vec<(usize, usize)> = Vec::new();
    let mut pos = from;
    loop
        invariant_except_break
            from <= pos <= to <= cs@.len(),
            pieces + split_on(cs@.subrange(pos as int, to as int), c) == whole,
        invariant
            r@.len() == pieces.len(),
            forall|i: int|
                0 <= i < r@.len() ==> from <= (#[trigger] r@[i]).0 <= r@[i].1 <= to
                    && cs@.subrange(r@[i].0 as int, r@[i].1 as int) == pieces[i],
        ensures
            pieces == whole,
        decreases to - pos,
    {
        let ghost s = cs@.subrange(pos as int, to as int);
        let k = find_char(cs, pos, to, c);
        if k == to {
            proof {
                assert(split_on(s, c) == seq![s]);
                pieces = pieces.push(s);
                assert(pieces =~= whole);
            }
            r.push((pos, to));
            break ;
        }
        proof {
            let kk = k - pos;
            assert(s.take(kk) =~= cs@.subrange(pos as int, k as int));
            assert(s.skip(kk + 1) =~= cs@.subrange(k + 1, to as int));
            assert(split_on(s, c) == seq![s.take(kk)] + split_on(s.skip(kk + 1), c));
            assert(pieces.push(s.take(kk)) + split_on(s.skip(kk + 1), c) =~= pieces + split_on(
                s,
                c,
            ));
            pieces = pieces.push(s.take(kk));
        }
        r.push((pos, k));
        pos = k + 1;
    }
    r
}

/// The ranges of `cs[from..to]` that `str::split_whitespace` yields, in
/// order.
pub fn ws_token_ranges(cs: &[char], from: usize, to: usize) -> (r: Vec<(usize, usize)>)
    requires
        from <= to <= cs@.len(),
    ensures
        r@.len() == ws_tokens(cs@.subrange(from as int, to as int)).len(),
        forall|i: int|
            0 <= i < r@.len() ==> from <= (#[trigger] r@[i]).0 <= r@[i].1 <= to
                && cs@.subrange(r@[i].0 as int, r@[i].1 as int) == ws_tokens(
                cs@.subrange(from as int, to as int),
            )[i],
{
    let ghost whole = ws_tokens(cs@.subrange(from as int, to as int));
    let ghost mut pieces: Seq<Seq<char>> = Seq::empty();
    let mut r: Vec<(usize, usize)> = Vec::new();
    let mut pos = from;
    loop
        invariant_except_break
            from <= pos <= to <= cs@.len(),
            pieces + ws_tokens(cs@.subrange(pos as int, to as int)) == whole,
        invariant
            r@.len() == pieces.len(),
            forall|i: int|
                0 <= i < r@.len() ==> from <= (#[trigger] r@[i]).0 <= r@[i].1 <= to
                    && cs@.subrange(r@[i].0 as int, r@[i].1 as int) == pieces[i],
        ensures
            pieces == whole,
        decreases to - pos,
    {
        let ghost s = cs@.subrange(pos as int, to as int);
        let mut a = pos;
        while a < to && is_ws_char(cs[a])
            invariant
                pos <= a <= to <= cs@.len(),
                forall|j: int| pos <= j < a ==> is_ws(#[trigger] cs@[j]),
            decreases to - a,
        {
            a = a + 1;
        }
        proof {
            lemma_trim_start(s);
            if lead_ws(s) < a - pos {
                assert(s[lead_ws(s) as int] == cs@[pos + lead_ws(s)]);
            }
            if lead_ws(s) > a - pos {
                assert(s[a - pos] == cs@[a as int]);
            }
            assert(trim_start(s) =~= cs@.subrange(a as int, to as int));
        }
        if a == to {
            proof {
                assert(trim_start(s).len() == 0);
                assert(ws_tokens(s) == Seq::<Seq<char>>::empty());
                assert(pieces =~= pieces + ws_tokens(s));
            }
            break ;
        }
        let mut e = a;
        while e < to && !is_ws_char(cs[e])
            invariant
                a <= e <= to <= cs@.len(),
                forall|j: int| a <= j < e ==> !is_ws(#[trigger] cs@[j]),
            decreases to - e,
        {
            e = e + 1;
        }
        proof {
            let t = cs@.subrange(a as int, to as int);
            assert forall|j: int| 0 <= j < e - a implies !is_ws(#[trigger] t[j]) by {
                assert(t[j] == cs@[a + j]);
            }
            if e < to {
                assert(t[e - a] == cs@[e as int]);
            }
            lemma_ws_index_is(t, e - a);
            assert(!is_ws(cs@[a as int]));
            assert(t.take(e - a) =~= cs@.subrange(a as int, e as int));
            assert(t.skip(e - a) =~= cs@.subrange(e as int, to as int));
            assert(ws_tokens(s) == seq![t.take(e - a)] + ws_tokens(t.skip(e - a)));
            assert(pieces.push(t.take(e - a)) + ws_tokens(t.skip(e - a)) =~= pieces + ws_tokens(s));
            pieces = pieces.push(t.take(e - a));
        }
        r.push((a, e));
        pos = e;
    }
    r
}

} // verus!

verus! {

// ---------------------------------------------------------------------------
// Decimal formatting
// ---------------------------------------------------------------------------

/// The digit character of `d` (`0 <= d < 10`).
pub open spec fn digit_char(d: nat) -> char {
    ((d + ('0' as u32)) as u32) as char
}

/// The decimal text of a natural number, as `Display` writes it.
pub open spec fn dec(n: nat) -> Seq<char>
    decreases n,
{
    if n < 10 {
        seq![digit_char(n)]
    } else {
        dec(n / 10).push(digit_char(n % 10))
    }
}

/// The decimal text of an integer, with a leading `-` when negative.
pub open spec fn sdec(v: int) -> Seq<char> {
    if v < 0 {
        seq!['-'] + dec((-v) as nat)
    } else {
        dec(v as nat)
    }
}

proof fn lemma_digit_char(d: nat)
    requires
        d < 10,
    ensures
        is_digit(digit_char(d)),
        digit_value(digit_char(d)) == d,
{
    assert((('0' as u32) as int) == 48);
    assert(((d + ('0' as u32)) as u32) as int == d + 48);
    assert((digit_char(d) as u32) as int == d + 48);
}

pub proof fn lemma_dec(n: nat)
    ensures
        dec(n).len() > 0,
        all_digits(dec(n)),
        digits_value(dec(n)) == n,
    decreases n,
{
    lemma_digit_char(n % 10);
    if n < 10 {
        assert(dec(n).drop_last() =~= Seq::<char>::empty());
        assert(digits_value(dec(n).drop_last()) == 0);
        assert(n % 10 == n);
        assert(digits_value(dec(n)) == digits_value(dec(n).drop_last()) * 10 + digit_value(
            dec(n).last(),
        ));
    } else {
        lemma_dec(n / 10);
        assert(n == (n / 10) * 10 + n % 10);
        let s = dec(n);
        assert(s.drop_last() =~= dec(n / 10));
        assert(digits_value(s) == digits_value(s.drop_last()) * 10 + digit_value(s.last()));
        assert forall|i: int| 0 <= i < s.len() implies is_digit(#[trigger] s[i]) by {
            if i < s.len() - 1 {
                assert(s[i] == dec(n / 10)[i]);
            }
        }
    }
}

/// Writing a number in decimal and reading it back gives the number.
pub proof fn lemma_dec_parses(n: nat, lo: int, hi: int, signed: bool)
    requires
        lo <= n <= hi,
    ensures
        parse_int(dec(n), signed, lo, hi) == Some(n as int),
{
    lemma_dec(n);
    let s = dec(n);
    assert(is_digit(s[0]));
}

/// Writing an integer in decimal and reading it back as a signed integer
/// gives the integer.
pub proof fn lemma_sdec_parses(v: int, lo: int, hi: int)
    requires
        lo <= v <= hi,
    ensures
        parse_int(sdec(v), true, lo, hi) == Some(v),
{
    if v < 0 {
        let m = (-v) as nat;
        lemma_dec(m);
        let s = sdec(v);
        assert(s.drop_first() =~= dec(m));
    } else {
        lemma_dec_parses(v as nat, lo, hi, true);
    }
}

/// The decimal text of `n`.
pub fn fmt_u64(n: u64) -> (r: Vec<char>)
    ensures
        r@ == dec(n as nat),
    decreases n,
{
    let d: u32 = (n % 10) as u32;
    let c: char = ((d + ('0' as u32)) as u8) as char;
    if n < 10 {
        let mut v: Vec<char> = Vec::new();
        v.push(c);
        v
    } else {
        let mut v = fmt_u64(n / 10);
        v.push(c);
        v
    }
}

/// The decimal text of `v`, with a leading `-` when negative.
pub fn fmt_i64(v: i64) -> (r: Vec<char>)
    ensures
        r@ == sdec(v as int),
{
    if v < 0 {
        let m: u64 = if v == i64::MIN {
            9223372036854775808u64
        } else {
            (-v) as u64
        };
        let digits = fmt_u64(m);
        let mut out: Vec<char> = Vec::new();
        out.push('-');
        let mut i: usize = 0;
        while i < digits.len()
            invariant
                i <= digits@.len(),
                out@ == seq!['-'] + digits@.take(i as int),
            decreases digits.len() - i,
        {
            out.push(digits[i]);
            i = i + 1;
            assert(out@ =~= seq!['-'] + digits@.take(i as int));
        }
        assert(digits@.take(i as int) =~= digits@);
        out
    } else {
        fmt_u64(v as u64)
    }
}

/// Appends the characters of `b` to `a`.
pub fn extend_chars(a: &mut Vec<char>, b: &[char])
    ensures
        final(a)@ == old(a)@ + b@,
{
    let mut i: usize = 0;
    while i < b.len()
        invariant
            i <= b@.len(),
            a@ == old(a)@ + b@.take(i as int),
        decreases b.len() - i,
    {
        a.push(b[i]);
        i = i + 1;
        assert(a@ =~= old(a)@ + b@.take(i as int));
    }
    assert(b@.take(i as int) =~= b@);
}

/// Whether `cs[from..to]` equals `lit`.
pub fn range_eq(cs: &[char], from: usize, to: usize, lit: &[char]) -> (r: bool)
    requires
        from <= to <= cs@.len(),
    ensures
        r == (cs@.subrange(from as int, to as int) == lit@),
{
    if to - from != lit.len() {
        return false;
    }
    let mut i: usize = 0;
    while i < lit.len()
        invariant
            i <= lit@.len(),
            to - from == lit@.len(),
            from <= to <= cs@.len(),
            forall|j: int| 0 <= j < i ==> cs@[from + j] == lit@[j],
        decreases lit.len() - i,
    {
        if cs[from + i] != lit[i] {
            assert(cs@.subrange(from as int, to as int)[i as int] != lit@[i as int]);
            return false;
        }
        i = i + 1;
    }
    assert(cs@.subrange(from as int, to as int) =~= lit@);
    true
}

/// Whether `cs[from..to]` equals `lit` ignoring ASCII case.
pub fn range_eq_ignore_case(cs: &[char], from: usize, to: usize, lit: &[char]) -> (r: bool)
    requires
        from <= to <= cs@.len(),
    ensures
        r == eq_ignore_case(cs@.subrange(from as int, to as int), lit@),
{
    let ghost s = cs@.subrange(from as int, to as int);
    if to - from != lit.len() {
        assert(upper(s).len() != upper(lit@).len());
        return false;
    }
    let mut i: usize = 0;
    while i < lit.len()
        invariant
            i <= lit@.len(),
            to - from == lit@.len(),
            from <= to <= cs@.len(),
            s == cs@.subrange(from as int, to as int),
            forall|j: int| 0 <= j < i ==> to_upper(cs@[from + j]) == to_upper(lit@[j]),
        decreases lit.len() - i,
    {
        if upper_char(cs[from + i]) != upper_char(lit[i]) {
            assert(upper(s)[i as int] != upper(lit@)[i as int]);
            return false;
        }
        i = i + 1;
    }
    assert(upper(s) =~= upper(lit@));
    true
}

} // verus!

verus! {

/// Whether `cs[from..to]` is the single character `c`.
pub fn range_is_char(cs: &[char], from: usize, to: usize, c: char) -> (r: bool)
    requires
        from <= to <= cs@.len(),
    ensures
        r == (cs@.subrange(from as int, to as int) == seq![c]),
{
    let r = to - from == 1 && cs[from] == c;
    proof {
        if r {
            assert(cs@.subrange(from as int, to as int) =~= seq![c]);
        } else if cs@.subrange(from as int, to as int) == seq![c] {
            assert(seq![c].len() == 1);
            assert(seq![c][0] == c);
            assert(cs@.subrange(from as int, to as int)[0] == cs@[from as int]);
        }
    }
    r
}

// ---------------------------------------------------------------------------
// Plain decimal forms of float literals
// ---------------------------------------------------------------------------

/// The length of a leading `+` or `-`.
pub open spec fn sign_len(s: Seq<char>) -> int {
    if s.len() > 0 && (s[0] == '-' || s[0] == '+') {
        1
    } else {
        0
    }
}

/// The digits before the point of a literal (after its sign).
pub open spec fn int_part(s: Seq<char>) -> Seq<char> {
    let b = s.skip(sign_len(s));
    let k = first_index(b, '.');
    if k < 0 {
        b
    } else {
        b.take(k)
    }
}

/// The digits after the point of a literal, if any.
pub open spec fn frac_part(s: Seq<char>) -> Seq<char> {
    let b = s.skip(sign_len(s));
    let k = first_index(b, '.');
    if k < 0 {
        Seq::empty()
    } else {
        b.skip(k + 1)
    }
}

/// Whether `s` is a plain decimal literal: an optional sign, digits, and
/// optionally a point and more digits, with at least one digit.
pub open spec fn plain_decimal(s: Seq<char>) -> bool {
    all_digits(int_part(s)) && all_digits(frac_part(s)) && int_part(s).len() + frac_part(s).len() > 0
}

pub open spec fn drop_leading_zeros(s: Seq<char>) -> Seq<char>
    decreases s.len(),
{
    if s.len() > 0 && s[0] == '0' {
        drop_leading_zeros(s.drop_first())
    } else {
        s
    }
}

pub open spec fn drop_trailing_zeros(s: Seq<char>) -> Seq<char>
    decreases s.len(),
{
    if s.len() > 0 && s.last() == '0' {
        drop_trailing_zeros(s.drop_last())
    } else {
        s
    }
}

/// The shortest form of a plain decimal literal: its `-` if any, its
/// integer digits without leading zeros (`0` when none are left), and the
/// fraction digits without trailing zeros after a point (no point when none
/// are left). Other literals are kept as written.
pub open spec fn float_text(s: Seq<char>) -> Seq<char> {
    if !plain_decimal(s) {
        s
    } else {
        let i2 = drop_leading_zeros(int_part(s));
        let f2 = drop_trailing_zeros(frac_part(s));
        (if s[0] == '-' {
            seq!['-']
        } else {
            Seq::empty()
        }) + (if i2.len() == 0 {
            seq!['0']
        } else {
            i2
        }) + (if f2.len() == 0 {
            Seq::empty()
        } else {
            seq!['.'] + f2
        })
    }
}

/// Whether `s` is a float literal in the form that [`float_text`] writes.
pub open spec fn canonical_float(s: Seq<char>) -> bool {
    is_float_literal(s) && float_text(s) == s
}

proof fn lemma_drop_leading_zeros(t: Seq<char>, z: int)
    requires
        0 <= z <= t.len(),
        forall|j: int| 0 <= j < z ==> #[trigger] t[j] == '0',
        z == t.len() || t[z] != '0',
    ensures
        drop_leading_zeros(t) == t.skip(z),
    decreases z,
{
    if z > 0 {
        assert forall|j: int| 0 <= j < z - 1 implies #[trigger] t.drop_first()[j] == '0' by {
            assert(t.drop_first()[j] == t[j + 1]);
        }
        if z < t.len() {
            assert(t.drop_first()[z - 1] == t[z]);
        }
        lemma_drop_leading_zeros(t.drop_first(), z - 1);
        assert(t.drop_first().skip(z - 1) =~= t.skip(z));
    } else {
        assert(t.skip(0) =~= t);
    }
}

proof fn lemma_drop_trailing_zeros(t: Seq<char>, e: int)
    requires
        0 <= e <= t.len(),
        forall|j: int| e <= j < t.len() ==> #[trigger] t[j] == '0',
        e == 0 || t[e - 1] != '0',
    ensures
        drop_trailing_zeros(t) == t.take(e),
    decreases t.len() - e,
{
    if e < t.len() {
        assert forall|j: int| e <= j < t.drop_last().len() implies #[trigger] t.drop_last()[j] == '0' by {
            assert(t.drop_last()[j] == t[j]);
        }
        if e > 0 {
            assert(t.drop_last()[e - 1] == t[e - 1]);
        }
        lemma_drop_trailing_zeros(t.drop_last(), e);
        assert(t.drop_last().take(e) =~= t.take(e));
    } else {
        assert(t.take(e) =~= t);
    }
}

fn digits_only(cs: &[char], from: usize, to: usize) -> (r: bool)
    requires
        from <= to <= cs@.len(),
    ensures
        r == all_digits(cs@.subrange(from as int, to as int)),
{
    let mut i = from;
    while i < to
        invariant
            from <= i <= to <= cs@.len(),
            forall|j: int| from <= j < i ==> is_digit(#[trigger] cs@[j]),
        decreases to - i,
    {
        if !is_digit_char(cs[i]) {
            assert(cs@.subrange(from as int, to as int)[i - from] == cs@[i as int]);
            return false;
        }
        i = i + 1;
    }
    assert forall|m: int| 0 <= m < to - from implies is_digit(#[trigger] cs@.subrange(from as int, to as int)[m]) by {
        assert(cs@.subrange(from as int, to as int)[m] == cs@[from + m]);
    }
    true
}

fn leading_zeros_end(cs: &[char], from: usize, to: usize) -> (a: usize)
    requires
        from <= to <= cs@.len(),
    ensures
        from <= a <= to,
        drop_leading_zeros(cs@.subrange(from as int, to as int)) == cs@.subrange(a as int, to as int),
{
    let ghost t = cs@.subrange(from as int, to as int);
    let mut a = from;
    while a < to && cs[a] == '0'
        invariant
            from <= a <= to <= cs@.len(),
            forall|m: int| from <= m < a ==> #[trigger] cs@[m] == '0',
        decreases to - a,
    {
        a = a + 1;
    }
    proof {
        assert forall|m: int| 0 <= m < a - from implies #[trigger] t[m] == '0' by {
            assert(t[m] == cs@[from + m]);
        }
        if a < to {
            assert(t[a - from] == cs@[a as int]);
        }
        lemma_drop_leading_zeros(t, a - from);
        assert(t.skip(a - from) =~= cs@.subrange(a as int, to as int));
    }
    a
}

fn trailing_zeros_start(cs: &[char], from: usize, to: usize) -> (e: usize)
    requires
        from <= to <= cs@.len(),
    ensures
        from <= e <= to,
        drop_trailing_zeros(cs@.subrange(from as int, to as int)) == cs@.subrange(from as int, e as int),
{
    let ghost t = cs@.subrange(from as int, to as int);
    let mut e = to;
    while e > from && cs[e - 1] == '0'
        invariant
            from <= e <= to <= cs@.len(),
            forall|m: int| e <= m < to ==> #[trigger] cs@[m] == '0',
        decreases e - from,
    {
        e = e - 1;
    }
    proof {
        assert forall|m: int| e - from <= m < t.len() implies #[trigger] t[m] == '0' by {
            assert(t[m] == cs@[from + m]);
        }
        if e > from {
            assert(t[e - from - 1] == cs@[e - 1]);
        }
        lemma_drop_trailing_zeros(t, e - from);
        assert(t.take(e - from) =~= cs@.subrange(from as int, e as int));
    }
    e
}

/// The shortest form of a float literal (see [`float_text`]).
#[verifier::rlimit(60)]
pub fn float_text_exec(cs: &[char]) -> (r: Vec<char>)
    ensures
        r@ == float_text(cs@),
{
    let ghost s = cs@;
    let n = cs.len();
    let sl: usize = if n > 0 && (cs[0] == '-' || cs[0] == '+') {
        1
    } else {
        0
    };
    let k = find_char(cs, sl, n, '.');
    let fs: usize = if k < n {
        k + 1
    } else {
        n
    };
    proof {
        let b = s.skip(sl as int);
        assert(s.subrange(sl as int, n as int) =~= b);
        lemma_first_index(b, '.');
        assert(int_part(s) =~= cs@.subrange(sl as int, k as int));
        assert(frac_part(s) =~= cs@.subrange(fs as int, n as int));
    }
    if !(k - sl + (n - fs) > 0 && digits_only(cs, sl, k) && digits_only(cs, fs, n)) {
        return copy_range(cs, 0, n);
    }
    assert(plain_decimal(s));
    let a = leading_zeros_end(cs, sl, k);
    let e = trailing_zeros_start(cs, fs, n);
    let ghost i2 = drop_leading_zeros(int_part(s));
    let ghost f2 = drop_trailing_zeros(frac_part(s));
    assert(i2 == cs@.subrange(a as int, k as int));
    assert(f2 == cs@.subrange(fs as int, e as int));
    let mut out: Vec<char> = Vec::new();
    if n > 0 && cs[0] == '-' {
        out.push('-');
    }
    if a == k {
        out.push('0');
    } else {
        let ipart = copy_range(cs, a, k);
        extend_chars(&mut out, &ipart);
    }
    if e > fs {
        out.push('.');
        let fpart = copy_range(cs, fs, e);
        extend_chars(&mut out, &fpart);
    }
    assert(out@ =~= (if s[0] == '-' {
        seq!['-']
    } else {
        Seq::empty()
    }) + (if i2.len() == 0 {
        seq!['0']
    } else {
        i2
    }) + (if f2.len() == 0 {
        Seq::empty()
    } else {
        seq!['.'] + f2
    }));
    out
}

// ---------------------------------------------------------------------------
// Reading back written text
// ---------------------------------------------------------------------------

/// Whether `c` occurs nowhere in `s`.
pub open spec fn lacks(s: Seq<char>, c: char) -> bool {
    forall|i: int| 0 <= i < s.len() ==> #[trigger] s[i] != c
}

/// Whether `s` holds no whitespace.
pub open spec fn no_ws(s: Seq<char>) -> bool {
    forall|i: int| 0 <= i < s.len() ==> !is_ws(#[trigger] s[i])
}

/// The first `c` of `a + b`, where `a` holds none, is the first of `b`.
pub proof fn lemma_first_index_after(a: Seq<char>, b: Seq<char>, c: char)
    requires
        lacks(a, c),
    ensures
        first_index(a + b, c) == if first_index(b, c) < 0 {
            -1
        } else {
            a.len() + first_index(b, c)
        },
    decreases a.len(),
{
    if a.len() == 0 {
        assert(a + b =~= b);
    } else {
        assert((a + b).drop_first() =~= a.drop_first() + b);
        assert((a + b)[0] == a[0]);
        assert forall|i: int| 0 <= i < a.drop_first().len() implies #[trigger] a.drop_first()[i] != c by {
            assert(a.drop_first()[i] == a[i + 1]);
        }
        lemma_first_index_after(a.drop_first(), b, c);
    }
}

/// The first `c` of `a + [c] + b`, where `a` holds none, ends `a`.
pub proof fn lemma_first_index_at(a: Seq<char>, b: Seq<char>, c: char)
    requires
        lacks(a, c),
    ensures
        first_index(a + seq![c] + b, c) == a.len(),
{
    lemma_first_index_after(a, seq![c] + b, c);
    assert(a + seq![c] + b =~= a + (seq![c] + b));
    assert((seq![c] + b)[0] == c);
}

/// A text without `c` has no first `c`.
pub proof fn lemma_first_index_none(a: Seq<char>, c: char)
    requires
        lacks(a, c),
    ensures
        first_index(a, c) == -1,
{
    lemma_first_index_after(a, Seq::empty(), c);
    assert(a + Seq::<char>::empty() =~= a);
}

/// Splitting `a + [c] + b` on `c`, where `a` holds none, gives `a` first.
pub proof fn lemma_split_on_sep(a: Seq<char>, b: Seq<char>, c: char)
    requires
        lacks(a, c),
    ensures
        split_on(a + seq![c] + b, c) == seq![a] + split_on(b, c),
{
    let s = a + seq![c] + b;
    lemma_first_index_at(a, b, c);
    assert(s.take(a.len() as int) =~= a);
    assert(s.skip(a.len() + 1int) =~= b);
}

/// Splitting a text without `c` on `c` gives the text.
pub proof fn lemma_split_on_none(a: Seq<char>, c: char)
    requires
        lacks(a, c),
    ensures
        split_on(a, c) == seq![a],
{
    lemma_first_index_none(a, c);
}

/// A text that neither starts nor ends with whitespace is its own trim.
pub proof fn lemma_trim_plain(s: Seq<char>)
    requires
        s.len() > 0 ==> !is_ws(s[0]) && !is_ws(s.last()),
    ensures
        trim(s) == s,
        trim_start(s) == s,
{
}

/// A non-empty text without whitespace is one word.
pub proof fn lemma_ws_tokens_word(w: Seq<char>)
    requires
        w.len() > 0,
        no_ws(w),
    ensures
        ws_tokens(w) == seq![w],
{
    lemma_ws_index_is(w, w.len() as int);
    assert(w.take(w.len() as int) =~= w);
    assert(w.skip(w.len() as int) =~= Seq::<char>::empty());
    assert(ws_tokens(Seq::<char>::empty()) =~= Seq::<Seq<char>>::empty());
}

/// Leading whitespace can be dropped before splitting into words.
pub proof fn lemma_ws_tokens_trim_start(s: Seq<char>)
    ensures
        ws_tokens(s) == ws_tokens(trim_start(s)),
{
    lemma_trim_start(s);
    let t = trim_start(s);
    assert(t.skip(0) =~= t);
    assert(lead_ws(t) == 0) by {
        if t.len() > 0 {
            assert(t[0] == s[lead_ws(s) as int]);
        }
    }
    lemma_trim_start(t);
}

/// Whitespace at the front of `s` can be dropped before trimming.
proof fn lemma_trim_start_skip(s: Seq<char>, n: int)
    requires
        0 <= n <= s.len(),
        forall|j: int| 0 <= j < n ==> is_ws(#[trigger] s[j]),
    ensures
        trim_start(s) == trim_start(s.skip(n)),
    decreases n,
{
    if n > 0 {
        assert(s.drop_first().skip(n - 1) =~= s.skip(n));
        assert forall|j: int| 0 <= j < n - 1 implies is_ws(#[trigger] s.drop_first()[j]) by {
            assert(s.drop_first()[j] == s[j + 1]);
        }
        lemma_trim_start_skip(s.drop_first(), n - 1);
    } else {
        assert(s.skip(0) =~= s);
    }
}

/// A space separates words: the words of `x + " " + y` are those of `x`
/// followed by those of `y`.
pub proof fn lemma_ws_tokens_sep(x: Seq<char>, y: Seq<char>)
    ensures
        ws_tokens(x + seq![' '] + y) == ws_tokens(x) + ws_tokens(y),
    decreases x.len(),
{
    let s = x + seq![' '] + y;
    lemma_trim_start(x);
    let l = lead_ws(x) as int;
    if l == x.len() {
        assert forall|j: int| 0 <= j < x.len() + 1 implies is_ws(#[trigger] s[j]) by {
            if j < x.len() {
                assert(s[j] == x[j]);
            }
        }
        lemma_trim_start_skip(s, x.len() + 1int);
        assert(s.skip(x.len() + 1int) =~= y);
        lemma_ws_tokens_trim_start(s);
        lemma_ws_tokens_trim_start(y);
        assert(trim_start(x) =~= Seq::<char>::empty());
        lemma_ws_tokens_trim_start(x);
        assert(ws_tokens(Seq::<char>::empty()) =~= Seq::<Seq<char>>::empty());
        assert(ws_tokens(x) + ws_tokens(y) =~= ws_tokens(y));
    } else {
        let xt = x.skip(l);
        assert forall|j: int| 0 <= j < l implies is_ws(#[trigger] s[j]) by {
            assert(s[j] == x[j]);
        }
        lemma_trim_start_skip(s, l);
        let t = s.skip(l);
        assert(t =~= xt + seq![' '] + y);
        assert(t[0] == x[l]);
        lemma_trim_start_plain_first(t);
        lemma_trim_start_plain_first(xt);
        lemma_ws_index(xt);
        let j = ws_index(xt);
        assert forall|i: int| 0 <= i < j implies !is_ws(#[trigger] t[i]) by {
            assert(t[i] == xt[i]);
        }
        if j < xt.len() {
            assert(t[j] == xt[j]);
        } else {
            assert(t[j] == ' ');
        }
        lemma_ws_index_is(t, j);
        assert(j > 0);
        assert(t.take(j) =~= xt.take(j));
        assert(t.skip(j) =~= xt.skip(j) + seq![' '] + y);
        lemma_ws_tokens_sep(xt.skip(j), y);
        assert(ws_tokens(s) =~= seq![xt.take(j)] + ws_tokens(t.skip(j)));
        assert(ws_tokens(x) =~= seq![xt.take(j)] + ws_tokens(xt.skip(j)));
        assert(ws_tokens(s) =~= ws_tokens(x) + ws_tokens(y));
    }
}

proof fn lemma_trim_start_plain_first(t: Seq<char>)
    requires
        t.len() > 0,
        !is_ws(t[0]),
    ensures
        trim_start(t) == t,
{
}

/// The text of a number holds digits only.
pub proof fn lemma_dec_plain(n: nat)
    ensures
        dec(n).len() > 0,
        all_digits(dec(n)),
        no_ws(dec(n)),
        lacks(dec(n), ' '),
        lacks(dec(n), ','),
        lacks(dec(n), ':'),
        lacks(dec(n), '.'),
        !is_ws(dec(n)[0]),
        !is_ws(dec(n).last()),
{
    lemma_dec(n);
}

/// The text of a signed number holds a `-` and digits only.
pub proof fn lemma_sdec_plain(v: int)
    ensures
        sdec(v).len() > 0,
        no_ws(sdec(v)),
{
    if v < 0 {
        lemma_dec((-v) as nat);
        let s = sdec(v);
        assert forall|i: int| 0 <= i < s.len() implies !is_ws(#[trigger] s[i]) by {
            if i > 0 {
                assert(s[i] == dec((-v) as nat)[i - 1]);
            }
        }
    } else {
        lemma_dec(v as nat);
    }
}

/// Zeros in front of a number do not change its value.
pub proof fn lemma_digits_value_zero_front(s: Seq<char>)
    ensures
        digits_value(seq!['0'] + s) == digits_value(s),
    decreases s.len(),
{
    let z = seq!['0'] + s;
    if s.len() == 0 {
        assert(z.drop_last() =~= Seq::<char>::empty());
        assert(z.last() == '0');
        assert(digit_value('0') == 0);
        assert(digits_value(z) == digits_value(z.drop_last()) * 10 + digit_value(z.last()));
    } else {
        assert(z.drop_last() =~= seq!['0'] + s.drop_last());
        assert(z.last() == s.last());
        lemma_digits_value_zero_front(s.drop_last());
        assert(digits_value(z) == digits_value(z.drop_last()) * 10 + digit_value(z.last()));
        assert(digits_value(s) == digits_value(s.drop_last()) * 10 + digit_value(s.last()));
    }
}

} // verus!
