//! A JSON reader that recovers from common mistakes.
//!
//! The reader accepts the JSON grammar and, beyond it, recovers from a
//! missing comma between object members, trailing and leading commas, an
//! unclosed `[` or `{`, and stray characters where a value is expected.  Every
//! recovery is reported as an error next to the value; diagnostics that do not
//! stop the reading (leading zeros, unescaped control characters, invalid
//! `\u` escapes, a missing or leading comma in an object) are reported as
//! warnings.  When no value can be read at all, the result is `None` and the
//! errors say why.
//!
//! The reader works on the characters of the trimmed input; every position in
//! an error is a character index into that trimmed text.  Numbers keep their
//! literal text; objects keep their members in the order in which they were
//! written, duplicates included.

use vstd::prelude::*;
use crate::text::{is_ws, is_digit, trim};

verus! {

// ---------------------------------------------------------------------------
// Values and their model
// ---------------------------------------------------------------------------

/// A JSON value.
#[derive(Debug, PartialEq)]
pub enum JsonValue {
    Null,
    Bool(bool),
    /// A number, as the literal text that was read.
    Number(String),
    Str(String),
    Array(Vec<JsonValue>),
    /// The members of an object, in the order in which they were read.
    Object(Vec<(String, JsonValue)>),
}

/// The mathematical form of a [`JsonValue`].
pub enum JsonModel {
    Null,
    Bool(bool),
    Number(Seq<char>),
    Str(Seq<char>),
    Array(Seq<JsonModel>),
    Object(Seq<(Seq<char>, JsonModel)>),
}

pub open spec fn model(v: JsonValue) -> JsonModel
    decreases v,
{
    match v {
        JsonValue::Null => JsonModel::Null,
        JsonValue::Bool(b) => JsonModel::Bool(b),
        JsonValue::Number(t) => JsonModel::Number(t@),
        JsonValue::Str(t) => JsonModel::Str(t@),
        JsonValue::Array(items) => JsonModel::Array(models(items@)),
        JsonValue::Object(members) => JsonModel::Object(member_models(members@)),
    }
}

pub open spec fn models(vs: Seq<JsonValue>) -> Seq<JsonModel>
    decreases vs,
{
    if vs.len() == 0 {
        Seq::empty()
    } else {
        models(vs.subrange(0, vs.len() - 1)).push(model(vs[vs.len() - 1]))
    }
}

pub open spec fn member_models(ms: Seq<(String, JsonValue)>) -> Seq<(Seq<char>, JsonModel)>
    decreases ms,
{
    if ms.len() == 0 {
        Seq::empty()
    } else {
        member_models(ms.subrange(0, ms.len() - 1)).push(
            (ms[ms.len() - 1].0@, model(ms[ms.len() - 1].1)),
        )
    }
}

pub open spec fn opt_model(v: Option<JsonValue>) -> Option<JsonModel> {
    match v {
        Some(x) => Some(model(x)),
        None => None,
    }
}

// ---------------------------------------------------------------------------
// Errors
// ---------------------------------------------------------------------------

/// A diagnostic that does not stop the reading.
#[derive(Debug, Clone, Copy, PartialEq, Eq, Structural)]
pub enum JsonDiagnostic {
    /// A number with more than one character starts with `0`.
    LeadingZero,
    /// A `\u` escape names a surrogate; it reads as U+FFFD.
    InvalidUnicode,
    /// A control character other than `\n`, `\r` and `\t` stands unescaped
    /// in a string.
    ControlCharacter,
    /// Two object members follow each other without a comma.
    MissingComma,
    /// An object's members start with a comma.
    LeadingComma,
}

/// Why an error was reported.
#[derive(Debug, Clone, Copy, PartialEq, Eq, Structural)]
pub enum JsonErrorReason {
    /// A diagnostic: reported as a warning.
    Custom(JsonDiagnostic),
    /// The character found (or the end of input, `None`) is not what the
    /// grammar expects there.
    ExpectedFound(Option<char>),
}

/// An error with the character range `start..end` that it concerns.
#[derive(Debug, Clone, Copy, PartialEq, Eq, Structural)]
pub struct JsonError {
    pub reason: JsonErrorReason,
    pub start: usize,
    pub end: usize,
}

pub open spec fn char_at(s: Seq<char>, p: int) -> Option<char> {
    if 0 <= p < s.len() {
        Some(s[p])
    } else {
        None
    }
}

/// The error "unexpected input at `p`".
pub open spec fn unexpected(s: Seq<char>, p: int) -> JsonError {
    JsonError {
        reason: JsonErrorReason::ExpectedFound(char_at(s, p)),
        start: p as usize,
        end: (if p < s.len() { p + 1 } else { p }) as usize,
    }
}

pub open spec fn diagnostic(d: JsonDiagnostic, start: int, end: int) -> JsonError {
    JsonError { reason: JsonErrorReason::Custom(d), start: start as usize, end: end as usize }
}

// ---------------------------------------------------------------------------
// Lexical pieces
// ---------------------------------------------------------------------------

pub open spec fn at(s: Seq<char>, p: int, c: char) -> bool {
    0 <= p < s.len() && s[p] == c
}

/// The first position from `p` on that is not whitespace.
pub open spec fn skip_ws(s: Seq<char>, p: int) -> int
    decreases s.len() - p,
{
    if 0 <= p < s.len() && is_ws(s[p]) {
        skip_ws(s, p + 1)
    } else {
        p
    }
}

/// The first position from `p` on that is not an ASCII digit.
pub open spec fn digits_end(s: Seq<char>, p: int) -> int
    decreases s.len() - p,
{
    if 0 <= p < s.len() && is_digit(s[p]) {
        digits_end(s, p + 1)
    } else {
        p
    }
}

pub proof fn lemma_skip_ws(s: Seq<char>, p: int)
    requires
        0 <= p <= s.len(),
    ensures
        p <= skip_ws(s, p) <= s.len(),
        forall|j: int| p <= j < skip_ws(s, p) ==> is_ws(#[trigger] s[j]),
        skip_ws(s, p) < s.len() ==> !is_ws(s[skip_ws(s, p)]),
    decreases s.len() - p,
{
    if p < s.len() && is_ws(s[p]) {
        lemma_skip_ws(s, p + 1);
    }
}

pub proof fn lemma_digits_end(s: Seq<char>, p: int)
    requires
        0 <= p <= s.len(),
    ensures
        p <= digits_end(s, p) <= s.len(),
        forall|j: int| p <= j < digits_end(s, p) ==> is_digit(#[trigger] s[j]),
        digits_end(s, p) < s.len() ==> !is_digit(s[digits_end(s, p)]),
    decreases s.len() - p,
{
    if p < s.len() && is_digit(s[p]) {
        lemma_digits_end(s, p + 1);
    }
}

/// `char::is_control`: the characters of general category Cc.
pub open spec fn is_control(c: char) -> bool {
    c <= '\u{1f}' || ('\u{7f}' <= c && c <= '\u{9f}')
}

pub open spec fn is_hex(c: char) -> bool {
    ('0' <= c && c <= '9') || ('a' <= c && c <= 'f') || ('A' <= c && c <= 'F')
}

pub open spec fn hex_value(c: char) -> int {
    if '0' <= c && c <= '9' {
        c as int - '0' as int
    } else if 'a' <= c && c <= 'f' {
        c as int - 'a' as int + 10
    } else {
        c as int - 'A' as int + 10
    }
}

/// Whether `code` is a Unicode scalar value, that is, a `char`.
pub open spec fn is_scalar(code: int) -> bool {
    (0 <= code < 0xD800) || (0xE000 <= code <= 0x10FFFF)
}

/// Where the number literal that starts at `q` ends, or `-1` where none
/// starts there: an optional `-`, then `0` or a digit run that does not
/// start with `0`, then optionally `.` and digits, then optionally `e` or
/// `E`, an optional sign and digits.
pub open spec fn number_end(s: Seq<char>, q: int) -> int {
    let a = if at(s, q, '-') {
        q + 1
    } else {
        q
    };
    if !(0 <= a < s.len() && is_digit(s[a])) {
        -1
    } else {
        let b = if s[a] == '0' {
            a + 1
        } else {
            digits_end(s, a)
        };
        let c = if at(s, b, '.') && b + 1 < s.len() && is_digit(s[b + 1]) {
            digits_end(s, b + 1)
        } else {
            b
        };
        let e = if at(s, c + 1, '+') || at(s, c + 1, '-') {
            c + 2
        } else {
            c + 1
        };
        if (at(s, c, 'e') || at(s, c, 'E')) && 0 <= e < s.len() && is_digit(s[e]) {
            digits_end(s, e)
        } else {
            c
        }
    }
}

/// What reading string content yields.
pub struct StrScan {
    pub ok: bool,
    pub end: int,
    pub text: Seq<char>,
    pub errs: Seq<JsonError>,
}

/// Reads string content from `p`, after the characters `text` were read
/// with the errors `errs`, up to and including the closing quote.
pub open spec fn str_scan(s: Seq<char>, p: int, text: Seq<char>, errs: Seq<JsonError>) -> StrScan
    decreases s.len() - p,
{
    if !(0 <= p < s.len()) {
        StrScan { ok: false, end: p, text, errs }
    } else if s[p] == '"' {
        StrScan { ok: true, end: p + 1, text, errs }
    } else if s[p] == '\\' {
        if !(p + 1 < s.len()) {
            StrScan { ok: false, end: p, text, errs }
        } else {
            let e = s[p + 1];
            if e == '\\' || e == '/' || e == '"' {
                str_scan(s, p + 2, text.push(e), errs)
            } else if e == 'b' {
                str_scan(s, p + 2, text.push('\x08'), errs)
            } else if e == 'f' {
                str_scan(s, p + 2, text.push('\x0c'), errs)
            } else if e == 'n' {
                str_scan(s, p + 2, text.push('\n'), errs)
            } else if e == 'r' {
                str_scan(s, p + 2, text.push('\r'), errs)
            } else if e == 't' {
                str_scan(s, p + 2, text.push('\t'), errs)
            } else if e == 'u' && p + 5 < s.len() && is_hex(s[p + 2]) && is_hex(s[p + 3])
                && is_hex(s[p + 4]) && is_hex(s[p + 5]) {
                let code = 4096 * hex_value(s[p + 2]) + 256 * hex_value(s[p + 3]) + 16
                    * hex_value(s[p + 4]) + hex_value(s[p + 5]);
                if is_scalar(code) {
                    str_scan(s, p + 6, text.push(code as char), errs)
                } else {
                    str_scan(
                        s,
                        p + 6,
                        text.push('\u{fffd}'),
                        errs.push(diagnostic(JsonDiagnostic::InvalidUnicode, p + 2, p + 6)),
                    )
                }
            } else {
                StrScan { ok: false, end: p, text, errs }
            }
        }
    } else if is_control(s[p]) && s[p] != '\n' && s[p] != '\r' && s[p] != '\t' {
        str_scan(
            s,
            p + 1,
            text.push(s[p]),
            errs.push(diagnostic(JsonDiagnostic::ControlCharacter, p, p + 1)),
        )
    } else {
        str_scan(s, p + 1, text.push(s[p]), errs)
    }
}

pub proof fn lemma_str_scan_end(s: Seq<char>, p: int, text: Seq<char>, errs: Seq<JsonError>)
    requires
        0 <= p,
    ensures
        str_scan(s, p, text, errs).ok ==> p < str_scan(s, p, text, errs).end <= s.len(),
    decreases s.len() - p,
{
    if 0 <= p < s.len() && s[p] != '"' {
        if s[p] == '\\' {
            if p + 1 < s.len() {
                let e = s[p + 1];
                if e == 'u' && p + 5 < s.len() {
                    let code = 4096 * hex_value(s[p + 2]) + 256 * hex_value(s[p + 3]) + 16
                        * hex_value(s[p + 4]) + hex_value(s[p + 5]);
                    lemma_str_scan_end(s, p + 6, text.push(code as char), errs);
                    lemma_str_scan_end(s, p + 6, text.push('\u{fffd}'), errs.push(diagnostic(JsonDiagnostic::InvalidUnicode, p + 2, p + 6)));
                }
                lemma_str_scan_end(s, p + 2, text.push(e), errs);
                lemma_str_scan_end(s, p + 2, text.push('\x08'), errs);
                lemma_str_scan_end(s, p + 2, text.push('\x0c'), errs);
                lemma_str_scan_end(s, p + 2, text.push('\n'), errs);
                lemma_str_scan_end(s, p + 2, text.push('\r'), errs);
                lemma_str_scan_end(s, p + 2, text.push('\t'), errs);
            }
        } else {
            lemma_str_scan_end(s, p + 1, text.push(s[p]), errs);
            lemma_str_scan_end(s, p + 1, text.push(s[p]), errs.push(diagnostic(JsonDiagnostic::ControlCharacter, p, p + 1)));
        }
    }
}

/// The position of the comma that separator recovery finds from `j`:
/// skipping one character at a time, the first place where whitespace and a
/// comma follow, unless a `,` or `]` (or the end) comes first; `-1` where
/// there is none.
pub open spec fn sep_find(s: Seq<char>, j: int) -> int
    decreases s.len() - j,
{
    if !(0 <= j < s.len()) || s[j] == ',' || s[j] == ']' {
        -1
    } else if at(s, skip_ws(s, j + 1), ',') {
        skip_ws(s, j + 1)
    } else {
        sep_find(s, j + 1)
    }
}

pub proof fn lemma_sep_find(s: Seq<char>, j: int)
    requires
        0 <= j,
    ensures
        sep_find(s, j) == -1 || (j < sep_find(s, j) < s.len() && s[sep_find(s, j)] == ','),
    decreases s.len() - j,
{
    if 0 <= j < s.len() && s[j] != ',' && s[j] != ']' {
        lemma_skip_ws(s, j + 1);
        lemma_sep_find(s, j + 1);
    }
}

/// The first position from `p` on that holds `c`, or `-1`.
pub open spec fn find_from(s: Seq<char>, p: int, c: char) -> int
    decreases s.len() - p,
{
    if !(0 <= p < s.len()) {
        -1
    } else if s[p] == c {
        p
    } else {
        find_from(s, p + 1, c)
    }
}

pub proof fn lemma_find_from(s: Seq<char>, p: int, c: char)
    requires
        0 <= p,
    ensures
        find_from(s, p, c) == -1 || (p <= find_from(s, p, c) < s.len() && s[find_from(s, p, c)] == c),
        forall|j: int| p <= j < s.len() && (find_from(s, p, c) == -1 || j < find_from(s, p, c)) ==> #[trigger] s[j] != c,
    decreases s.len() - p,
{
    if 0 <= p < s.len() && s[p] != c {
        lemma_find_from(s, p + 1, c);
    }
}

/// Closing a bracket at `q`: the closing character itself; at the end of
/// input, nothing (with an error); elsewhere the first closing character
/// further on (with an error). Gives the end position and whether an error
/// is reported, or `None` where no closing character follows.
pub open spec fn close_at(s: Seq<char>, q: int, c: char) -> Option<(int, bool)> {
    if at(s, q, c) {
        Some((q + 1, false))
    } else if q >= s.len() {
        Some((q, true))
    } else if find_from(s, q + 1, c) >= 0 {
        Some((find_from(s, q + 1, c) + 1, true))
    } else {
        None
    }
}

// ---------------------------------------------------------------------------
// The grammar
// ---------------------------------------------------------------------------

/// What reading a value yields: the value (`None` where none could be read),
/// where reading stopped, and the errors reported on the way.
pub struct Parse {
    pub val: Option<JsonModel>,
    pub end: int,
    pub errs: Seq<JsonError>,
}

/// The state of reading an array's items.
pub struct ArrState {
    pub items: Seq<JsonModel>,
    pub end: int,
    pub errs: Seq<JsonError>,
}

/// What reading an object member yields.
pub struct MemberParse {
    pub member: Option<(Seq<char>, JsonModel)>,
    pub end: int,
    pub errs: Seq<JsonError>,
}

/// The state of reading an object's members.
pub struct ObjState {
    pub members: Seq<(Seq<char>, JsonModel)>,
    pub end: int,
    pub errs: Seq<JsonError>,
}

/// Whether `w` stands in `s` at `q`.
pub open spec fn lit(s: Seq<char>, q: int, w: Seq<char>) -> bool {
    0 <= q && q + w.len() <= s.len() && s.subrange(q, q + w.len()) == w
}

pub open spec fn no_value(p: int) -> Parse {
    Parse { val: None, end: p, errs: Seq::empty() }
}

/// A value, with the whitespace around it. Where no value starts at the
/// first non-whitespace position `q`, characters are skipped one at a time
/// and reading is tried again (see [`retry`]).
pub open spec fn value(s: Seq<char>, p: int) -> Parse
    decreases s.len() - p, 10int,
{
    if !(0 <= p <= s.len()) {
        Parse { val: None, end: p, errs: seq![unexpected(s, p)] }
    } else {
        let q = skip_ws(s, p);
        proof {
            lemma_skip_ws(s, p);
        }
        let c = value_at(s, q);
        if c.val is Some {
            Parse { val: c.val, end: skip_ws(s, c.end), errs: c.errs }
        } else {
            retry(s, q, q)
        }
    }
}

/// Recovery where no value starts at `q0`: while the character at `j` is
/// not `,`, `]` or `}`, skip it and try to read a value right after it. The
/// value read this way comes with an error at `q0`.
pub open spec fn retry(s: Seq<char>, q0: int, j: int) -> Parse
    decreases s.len() - j, 4int,
{
    if !(0 <= j < s.len()) || s[j] == ',' || s[j] == ']' || s[j] == '}' {
        Parse { val: None, end: q0, errs: seq![unexpected(s, q0)] }
    } else {
        let c = value_at(s, j + 1);
        if c.val is Some {
            Parse { val: c.val, end: skip_ws(s, c.end), errs: seq![unexpected(s, q0)] + c.errs }
        } else {
            retry(s, q0, j + 1)
        }
    }
}

/// A value that starts exactly at `q`.
pub open spec fn value_at(s: Seq<char>, q: int) -> Parse
    decreases s.len() - q, 5int,
{
    if !(0 <= q < s.len()) {
        no_value(q)
    } else if s[q] == 'n' {
        if lit(s, q, seq!['n', 'u', 'l', 'l']) {
            Parse { val: Some(JsonModel::Null), end: q + 4, errs: Seq::empty() }
        } else {
            no_value(q)
        }
    } else if s[q] == 't' {
        if lit(s, q, seq!['t', 'r', 'u', 'e']) {
            Parse { val: Some(JsonModel::Bool(true)), end: q + 4, errs: Seq::empty() }
        } else {
            no_value(q)
        }
    } else if s[q] == 'f' {
        if lit(s, q, seq!['f', 'a', 'l', 's', 'e']) {
            Parse { val: Some(JsonModel::Bool(false)), end: q + 5, errs: Seq::empty() }
        } else {
            no_value(q)
        }
    } else if s[q] == '"' {
        let st = str_scan(s, q + 1, Seq::empty(), Seq::empty());
        if st.ok {
            Parse { val: Some(JsonModel::Str(st.text)), end: st.end, errs: st.errs }
        } else {
            no_value(q)
        }
    } else if s[q] == '-' || is_digit(s[q]) {
        let e = number_end(s, q);
        if e < 0 {
            no_value(q)
        } else {
            Parse {
                val: Some(JsonModel::Number(s.subrange(q, e))),
                end: e,
                errs: if e - q > 1 && s[q] == '0' {
                    seq![diagnostic(JsonDiagnostic::LeadingZero, q, e)]
                } else {
                    Seq::empty()
                },
            }
        }
    } else if s[q] == '[' {
        array(s, q + 1)
    } else if s[q] == '{' {
        object(s, q + 1)
    } else {
        no_value(q)
    }
}

/// An array after its `[`: items separated by commas (a trailing comma is
/// allowed), then `]`, which [`close_at`] may recover.
pub open spec fn array(s: Seq<char>, p: int) -> Parse
    decreases s.len() - p, 13int,
{
    if !(0 <= p <= s.len()) {
        no_value(p)
    } else {
        let q = skip_ws(s, p);
        proof {
            lemma_skip_ws(s, p);
        }
        let first = value(s, q);
        let st = if first.val is Some && q < first.end <= s.len() {
            array_rest(s, first.end, seq![first.val->0], first.errs)
        } else {
            ArrState { items: Seq::empty(), end: q, errs: Seq::empty() }
        };
        let q2 = skip_ws(s, st.end);
        match close_at(s, q2, ']') {
            Some((e, err)) => Parse {
                val: Some(JsonModel::Array(st.items)),
                end: e,
                errs: if err {
                    st.errs.push(unexpected(s, q2))
                } else {
                    st.errs
                },
            },
            None => no_value(p),
        }
    }
}

/// The items after the first one, from `r`, after `items` were read with
/// the errors `errs`. Where no comma follows an item, the first comma
/// further on is taken (with an error), unless a `]` or the end comes first.
pub open spec fn array_rest(s: Seq<char>, r: int, items: Seq<JsonModel>, errs: Seq<JsonError>) -> ArrState
    decreases s.len() - r, 12int,
{
    if !(0 <= r <= s.len()) {
        ArrState { items, end: r, errs }
    } else if at(s, r, ',') {
        let a = skip_ws(s, r + 1);
        proof {
            lemma_skip_ws(s, r + 1);
        }
        let v = value(s, a);
        if v.val is Some && a < v.end <= s.len() {
            array_rest(s, v.end, items.push(v.val->0), errs + v.errs)
        } else {
            ArrState { items, end: a, errs }
        }
    } else if r == s.len() || s[r] == ']' {
        ArrState { items, end: r, errs }
    } else {
        let t = sep_find(s, r);
        proof {
            lemma_sep_find(s, r);
        }
        if t < 0 {
            ArrState { items, end: r, errs }
        } else {
            let a = skip_ws(s, t + 1);
            proof {
                lemma_skip_ws(s, t + 1);
            }
            let errs2 = errs.push(unexpected(s, r));
            let v = value(s, a);
            if v.val is Some && a < v.end <= s.len() {
                array_rest(s, v.end, items.push(v.val->0), errs2 + v.errs)
            } else {
                ArrState { items, end: a, errs: errs2 }
            }
        }
    }
}

/// An object after its `{`: members, then `}`, which [`close_at`] may
/// recover. Members that start with a comma are read with a warning.
pub open spec fn object(s: Seq<char>, p: int) -> Parse
    decreases s.len() - p, 13int,
{
    if !(0 <= p <= s.len()) {
        no_value(p)
    } else {
        let q = skip_ws(s, p);
        proof {
            lemma_skip_ws(s, p);
        }
        let first = member(s, q);
        let has_first = first.member is Some && q < first.end <= s.len();
        let st = if has_first {
            object_rest(s, first.end, seq![first.member->0], first.errs)
        } else {
            object_rest(s, q, Seq::empty(), Seq::empty())
        };
        let errs = if !has_first && st.members.len() > 0 {
            st.errs.push(diagnostic(JsonDiagnostic::LeadingComma, q, st.end))
        } else {
            st.errs
        };
        let q2 = skip_ws(s, st.end);
        match close_at(s, q2, '}') {
            Some((e, err)) => Parse {
                val: Some(JsonModel::Object(st.members)),
                end: e,
                errs: if err {
                    errs.push(unexpected(s, q2))
                } else {
                    errs
                },
            },
            None => no_value(p),
        }
    }
}

/// The members from `r` on, after `members` were read with the errors
/// `errs`: a comma and a member; a member without a comma (with a warning);
/// or a comma alone.
pub open spec fn object_rest(
    s: Seq<char>,
    r: int,
    members: Seq<(Seq<char>, JsonModel)>,
    errs: Seq<JsonError>,
) -> ObjState
    decreases s.len() - r, 12int,
{
    if !(0 <= r <= s.len()) {
        ObjState { members, end: r, errs }
    } else {
        let t = skip_ws(s, r);
        proof {
            lemma_skip_ws(s, r);
        }
        if at(s, t, ',') {
            let a = skip_ws(s, t + 1);
            proof {
                lemma_skip_ws(s, t + 1);
            }
            let m = member(s, a);
            if m.member is Some && a < m.end <= s.len() {
                object_rest(s, m.end, members.push(m.member->0), errs + m.errs)
            } else {
                object_rest(s, a, members, errs)
            }
        } else {
            let m = member(s, r);
            if m.member is Some && r < m.end <= s.len() {
                object_rest(
                    s,
                    m.end,
                    members.push(m.member->0),
                    (errs + m.errs).push(diagnostic(JsonDiagnostic::MissingComma, r, m.end)),
                )
            } else {
                ObjState { members, end: r, errs }
            }
        }
    }
}

/// An object member at `q`: a string, `:` and a value.
pub open spec fn member(s: Seq<char>, q: int) -> MemberParse
    decreases s.len() - q, 11int,
{
    let none = MemberParse { member: None, end: q, errs: Seq::empty() };
    if !(0 <= q < s.len()) || s[q] != '"' {
        none
    } else {
        let st = str_scan(s, q + 1, Seq::empty(), Seq::empty());
        if !st.ok {
            none
        } else {
            proof {
                lemma_str_scan_end(s, q + 1, Seq::empty(), Seq::empty());
                lemma_skip_ws(s, st.end);
            }
            let c = skip_ws(s, st.end);
            if !at(s, c, ':') {
                none
            } else {
                let v = value(s, c + 1);
                match v.val {
                    Some(m) => MemberParse { member: Some((st.text, m)), end: v.end, errs: st.errs + v.errs },
                    None => none,
                }
            }
        }
    }
}

/// What reading the whole input gives: the trimmed input must hold one
/// value and nothing after it.
pub open spec fn parse_spec(input: Seq<char>) -> (Option<JsonModel>, Seq<JsonError>) {
    let s = trim(input);
    let v = value(s, 0);
    match v.val {
        Some(m) => if v.end == s.len() {
            (Some(m), v.errs)
        } else {
            (None, v.errs.push(unexpected(s, v.end)))
        },
        None => (None, v.errs),
    }
}

// ---------------------------------------------------------------------------
// Reading: lexical pieces
// ---------------------------------------------------------------------------

/// `char::from_u32`: the `char` with the given code, where it is a Unicode
/// scalar value.
#[verifier::external_body]
fn char_from_u32(code: u32) -> (r: Option<char>)
    ensures
        r == (if is_scalar(code as int) {
            Some(code as char)
        } else {
            None
        }),
{
    char::from_u32(code)
}

fn skip_ws_exec(cs: &[char], p: usize) -> (q: usize)
    ensures
        q == skip_ws(cs@, p as int),
        p <= q,
        p <= cs@.len() ==> q <= cs@.len(),
{
    let mut q = p;
    while q < cs.len() && crate::text::is_ws_char(cs[q])
        invariant
            p <= q,
            p <= cs@.len() ==> q <= cs@.len(),
            skip_ws(cs@, p as int) == skip_ws(cs@, q as int),
        decreases cs@.len() - q,
    {
        q = q + 1;
    }
    q
}

fn digits_end_exec(cs: &[char], p: usize) -> (q: usize)
    requires
        p <= cs@.len(),
    ensures
        q == digits_end(cs@, p as int),
        p <= q <= cs@.len(),
{
    let mut q = p;
    while q < cs.len() && crate::text::is_digit_char(cs[q])
        invariant
            p <= q <= cs@.len(),
            digits_end(cs@, p as int) == digits_end(cs@, q as int),
        decreases cs@.len() - q,
    {
        q = q + 1;
    }
    q
}

fn at_exec(cs: &[char], p: usize, c: char) -> (r: bool)
    ensures
        r == at(cs@, p as int, c),
{
    p < cs.len() && cs[p] == c
}

fn number_end_exec(cs: &[char], q: usize) -> (r: Option<usize>)
    requires
        q <= cs@.len(),
    ensures
        match r {
            Some(e) => e as int == number_end(cs@, q as int) && q < e <= cs@.len(),
            None => number_end(cs@, q as int) == -1,
        },
{
    let n = cs.len();
    let a = if at_exec(cs, q, '-') {
        q + 1
    } else {
        q
    };
    if !(a < n && crate::text::is_digit_char(cs[a])) {
        return None;
    }
    let b = if cs[a] == '0' {
        a + 1
    } else {
        digits_end_exec(cs, a)
    };
    proof {
        lemma_digits_end(cs@, a + 1);
        assert(b > a);
    }
    let c = if at_exec(cs, b, '.') && b + 1 < n && crate::text::is_digit_char(cs[b + 1]) {
        digits_end_exec(cs, b + 1)
    } else {
        b
    };
    if c < n && (cs[c] == 'e' || cs[c] == 'E') {
        let e = if at_exec(cs, c + 1, '+') || at_exec(cs, c + 1, '-') {
            c + 2
        } else {
            c + 1
        };
        if e < n && crate::text::is_digit_char(cs[e]) {
            return Some(digits_end_exec(cs, e));
        }
    }
    Some(c)
}

fn is_control_exec(c: char) -> (r: bool)
    ensures
        r == is_control(c),
{
    c <= '\u{1f}' || ('\u{7f}' <= c && c <= '\u{9f}')
}

fn hex_exec(c: char) -> (r: Option<u32>)
    ensures
        match r {
            Some(v) => is_hex(c) && v as int == hex_value(c) && v < 16,
            None => !is_hex(c),
        },
{
    if '0' <= c && c <= '9' {
        Some((c as u32) - ('0' as u32))
    } else if 'a' <= c && c <= 'f' {
        Some((c as u32) - ('a' as u32) + 10)
    } else if 'A' <= c && c <= 'F' {
        Some((c as u32) - ('A' as u32) + 10)
    } else {
        None
    }
}

/// Reads string content from `p`, after the opening quote.
fn str_scan_exec(cs: &[char], p: usize) -> (r: (bool, usize, Vec<char>, Vec<JsonError>))
    requires
        p <= cs@.len(),
    ensures
        r.0 == str_scan(cs@, p as int, Seq::empty(), Seq::empty()).ok,
        r.0 ==> r.1 == str_scan(cs@, p as int, Seq::empty(), Seq::empty()).end,
        r.0 ==> r.2@ == str_scan(cs@, p as int, Seq::empty(), Seq::empty()).text,
        r.0 ==> r.3@ == str_scan(cs@, p as int, Seq::empty(), Seq::empty()).errs,
        r.1 <= cs@.len(),
{
    let ghost s = cs@;
    let n = cs.len();
    let mut i = p;
    let mut text: Vec<char> = Vec::new();
    let mut errs: Vec<JsonError> = Vec::new();
    loop
        invariant
            p <= i <= s.len(),
            s == cs@,
            str_scan(s, p as int, Seq::empty(), Seq::empty()) == str_scan(s, i as int, text@, errs@),
        decreases s.len() - i,
    {
        if i >= cs.len() {
            return (false, i, text, errs);
        }
        let c = cs[i];
        if c == '"' {
            return (true, i + 1, text, errs);
        } else if c == '\\' {
            if i + 1 >= cs.len() {
                return (false, i, text, errs);
            }
            let e = cs[i + 1];
            if e == '\\' || e == '/' || e == '"' {
                text.push(e);
                i = i + 2;
            } else if e == 'b' {
                text.push('\x08');
                i = i + 2;
            } else if e == 'f' {
                text.push('\x0c');
                i = i + 2;
            } else if e == 'n' {
                text.push('\n');
                i = i + 2;
            } else if e == 'r' {
                text.push('\r');
                i = i + 2;
            } else if e == 't' {
                text.push('\t');
                i = i + 2;
            } else if e == 'u' && cs.len() - i > 5 {
                let h0 = hex_exec(cs[i + 2]);
                let h1 = hex_exec(cs[i + 3]);
                let h2 = hex_exec(cs[i + 4]);
                let h3 = hex_exec(cs[i + 5]);
                match (h0, h1, h2, h3) {
                    (Some(a), Some(b), Some(c2), Some(d)) => {
                        let code: u32 = 4096 * a + 256 * b + 16 * c2 + d;
                        match char_from_u32(code) {
                            Some(ch) => {
                                text.push(ch);
                            },
                            None => {
                                text.push('\u{fffd}');
                                errs.push(
                                    JsonError {
                                        reason: JsonErrorReason::Custom(JsonDiagnostic::InvalidUnicode),
                                        start: i + 2,
                                        end: i + 6,
                                    },
                                );
                            },
                        }
                        i = i + 6;
                    },
                    _ => {
                        return (false, i, text, errs);
                    },
                }
            } else {
                return (false, i, text, errs);
            }
        } else {
            text.push(c);
            if is_control_exec(c) && c != '\n' && c != '\r' && c != '\t' {
                errs.push(
                    JsonError {
                        reason: JsonErrorReason::Custom(JsonDiagnostic::ControlCharacter),
                        start: i,
                        end: i + 1,
                    },
                );
            }
            i = i + 1;
        }
    }
}

fn lit_exec(cs: &[char], q: usize, w: &[char]) -> (r: bool)
    ensures
        r == lit(cs@, q as int, w@),
{
    if q <= cs.len() && w.len() <= cs.len() - q {
        crate::text::range_eq(cs, q, q + w.len(), w)
    } else {
        false
    }
}

fn unexpected_exec(cs: &[char], p: usize) -> (e: JsonError)
    ensures
        e == unexpected(cs@, p as int),
{
    if p < cs.len() {
        JsonError { reason: JsonErrorReason::ExpectedFound(Some(cs[p])), start: p, end: p + 1 }
    } else {
        JsonError { reason: JsonErrorReason::ExpectedFound(None), start: p, end: p }
    }
}

fn sep_find_exec(cs: &[char], j: usize) -> (r: Option<usize>)
    ensures
        match r {
            Some(t) => t as int == sep_find(cs@, j as int),
            None => sep_find(cs@, j as int) == -1,
        },
{
    let n = cs.len();
    let mut k = j;
    loop
        invariant
            j <= k,
            sep_find(cs@, j as int) == sep_find(cs@, k as int),
            n == cs@.len(),
        decreases n - k,
    {
        if k >= n || cs[k] == ',' || cs[k] == ']' {
            return None;
        }
        let t = skip_ws_exec(cs, k + 1);
        if at_exec(cs, t, ',') {
            return Some(t);
        }
        k = k + 1;
    }
}

fn close_exec(cs: &[char], q: usize, c: char) -> (r: Option<(usize, bool)>)
    ensures
        match r {
            Some((e, err)) => close_at(cs@, q as int, c) == Some((e as int, err)) && (q <= cs@.len() ==> e <= cs@.len()),
            None => close_at(cs@, q as int, c) is None,
        },
{
    let n = cs.len();
    if at_exec(cs, q, c) {
        return Some((q + 1, false));
    }
    if q >= n {
        return Some((q, true));
    }
    let mut k = q + 1;
    while k < n && cs[k] != c
        invariant
            q < k <= n,
            n == cs@.len(),
            find_from(cs@, q + 1, c) == find_from(cs@, k as int, c),
        decreases n - k,
    {
        k = k + 1;
    }
    if k < n {
        Some((k + 1, true))
    } else {
        None
    }
}

// ---------------------------------------------------------------------------
// Reading: values
// ---------------------------------------------------------------------------

proof fn lemma_models_push(vs: Seq<JsonValue>, x: JsonValue)
    ensures
        models(vs.push(x)) == models(vs).push(model(x)),
{
    assert(vs.push(x).subrange(0, vs.len() as int) =~= vs);
}

proof fn lemma_member_models_push(ms: Seq<(String, JsonValue)>, x: (String, JsonValue))
    ensures
        member_models(ms.push(x)) == member_models(ms).push((x.0@, model(x.1))),
{
    assert(ms.push(x).subrange(0, ms.len() as int) =~= ms);
}

/// What reading a value yields (see [`Parse`]).
struct Read {
    val: Option<JsonValue>,
    end: usize,
    errs: Vec<JsonError>,
}

spec fn reads(r: Read, p: Parse) -> bool {
    &&& opt_model(r.val) == p.val
    &&& r.end as int == p.end
    &&& r.errs@ == p.errs
}

fn no_read(p: usize) -> (r: Read)
    ensures
        reads(r, no_value(p as int)),
{
    Read { val: None, end: p, errs: Vec::new() }
}

fn value_exec(cs: &[char], p: usize) -> (r: Read)
    ensures
        reads(r, value(cs@, p as int)),
    decreases cs@.len() - p, 10int,
{
    let n = cs.len();
    if p > n {
        let mut errs: Vec<JsonError> = Vec::new();
        errs.push(unexpected_exec(cs, p));
        return Read { val: None, end: p, errs };
    }
    let q = skip_ws_exec(cs, p);
    let c = value_at_exec(cs, q);
    if c.val.is_some() {
        let e = skip_ws_exec(cs, c.end);
        return Read { val: c.val, end: e, errs: c.errs };
    }
    let mut j = q;
    loop
        invariant
            p <= q <= j <= n,
            n == cs@.len(),
            retry(cs@, q as int, q as int) == retry(cs@, q as int, j as int),
            value(cs@, p as int) == retry(cs@, q as int, q as int),
        decreases n - j,
    {
        if j >= n || cs[j] == ',' || cs[j] == ']' || cs[j] == '}' {
            let mut errs: Vec<JsonError> = Vec::new();
            errs.push(unexpected_exec(cs, q));
            return Read { val: None, end: q, errs };
        }
        let c = value_at_exec(cs, j + 1);
        if c.val.is_some() {
            let Read { val, end, errs: mut more } = c;
            let mut errs: Vec<JsonError> = Vec::new();
            errs.push(unexpected_exec(cs, q));
            errs.append(&mut more);
            let e = skip_ws_exec(cs, end);
            return Read { val, end: e, errs };
        }
        j = j + 1;
    }
}

fn value_at_exec(cs: &[char], q: usize) -> (r: Read)
    ensures
        reads(r, value_at(cs@, q as int)),
    decreases cs@.len() - q, 5int,
{
    let n = cs.len();
    if q >= n {
        return no_read(q);
    }
    let c = cs[q];
    if c == 'n' {
        if lit_exec(cs, q, &['n', 'u', 'l', 'l']) {
            Read { val: Some(JsonValue::Null), end: q + 4, errs: Vec::new() }
        } else {
            no_read(q)
        }
    } else if c == 't' {
        if lit_exec(cs, q, &['t', 'r', 'u', 'e']) {
            Read { val: Some(JsonValue::Bool(true)), end: q + 4, errs: Vec::new() }
        } else {
            no_read(q)
        }
    } else if c == 'f' {
        if lit_exec(cs, q, &['f', 'a', 'l', 's', 'e']) {
            Read { val: Some(JsonValue::Bool(false)), end: q + 5, errs: Vec::new() }
        } else {
            no_read(q)
        }
    } else if c == '"' {
        let (ok, end, text, errs) = str_scan_exec(cs, q + 1);
        if ok {
            Read { val: Some(JsonValue::Str(crate::text::string_from(&text))), end, errs }
        } else {
            no_read(q)
        }
    } else if c == '-' || crate::text::is_digit_char(c) {
        match number_end_exec(cs, q) {
            None => no_read(q),
            Some(e) => {
                let mut errs: Vec<JsonError> = Vec::new();
                if e - q > 1 && c == '0' {
                    errs.push(
                        JsonError {
                            reason: JsonErrorReason::Custom(JsonDiagnostic::LeadingZero),
                            start: q,
                            end: e,
                        },
                    );
                }
                Read {
                    val: Some(JsonValue::Number(crate::text::string_from_range(cs, q, e))),
                    end: e,
                    errs,
                }
            },
        }
    } else if c == '[' {
        array_exec(cs, q + 1)
    } else if c == '{' {
        object_exec(cs, q + 1)
    } else {
        no_read(q)
    }
}

fn array_exec(cs: &[char], p: usize) -> (r: Read)
    ensures
        reads(r, array(cs@, p as int)),
    decreases cs@.len() - p, 13int,
{
    let ghost s = cs@;
    let n = cs.len();
    if p > n {
        return no_read(p);
    }
    let q = skip_ws_exec(cs, p);
    let first = value_exec(cs, q);
    let ghost first_spec = value(s, q as int);
    let mut items: Vec<JsonValue> = Vec::new();
    let mut errs: Vec<JsonError> = Vec::new();
    let mut st_end: usize = q;
    let has = first.val.is_some() && q < first.end && first.end <= n;
    if has {
        let Read { val, end, errs: first_errs } = first;
        let mut r: usize = end;
        errs = first_errs;
        match val {
            Some(v) => {
                proof {
                    lemma_models_push(items@, v);
                }
                items.push(v);
            },
            None => {},
        }
        let ghost target = array_rest(s, end as int, seq![first_spec.val->0], first_spec.errs);
        assert(models(items@) == seq![first_spec.val->0]);
        loop
            invariant_except_break
                p <= r <= n,
                target == array_rest(s, r as int, models(items@), errs@),
            invariant
                n == cs@.len(),
                s == cs@,
                p <= q,
            ensures
                target == (ArrState { items: models(items@), end: st_end as int, errs: errs@ }),
            decreases n - r,
        {
            if at_exec(cs, r, ',') {
                let a = skip_ws_exec(cs, r + 1);
                let v = value_exec(cs, a);
                if v.val.is_some() && a < v.end && v.end <= n {
                    let Read { val, end, errs: mut more } = v;
                    match val {
                        Some(x) => {
                            proof {
                                lemma_models_push(items@, x);
                            }
                            items.push(x);
                        },
                        None => {},
                    }
                    errs.append(&mut more);
                    r = end;
                } else {
                    st_end = a;
                    break ;
                }
            } else if r == n || cs[r] == ']' {
                st_end = r;
                break ;
            } else {
                match sep_find_exec(cs, r) {
                    None => {
                        st_end = r;
                        break ;
                    },
                    Some(t) => {
                        proof {
                            lemma_sep_find(s, r as int);
                        }
                        let a = skip_ws_exec(cs, t + 1);
                        errs.push(unexpected_exec(cs, r));
                        let v = value_exec(cs, a);
                        if v.val.is_some() && a < v.end && v.end <= n {
                            let Read { val, end, errs: mut more } = v;
                            match val {
                                Some(x) => {
                                    proof {
                                        lemma_models_push(items@, x);
                                    }
                                    items.push(x);
                                },
                                None => {},
                            }
                            errs.append(&mut more);
                            r = end;
                        } else {
                            st_end = a;
                            break ;
                        }
                    },
                }
            }
        }
    }
    let q2 = skip_ws_exec(cs, st_end);
    match close_exec(cs, q2, ']') {
        Some((e, err)) => {
            if err {
                errs.push(unexpected_exec(cs, q2));
            }
            Read { val: Some(JsonValue::Array(items)), end: e, errs }
        },
        None => no_read(p),
    }
}

fn member_exec(cs: &[char], q: usize) -> (r: (Option<(String, JsonValue)>, usize, Vec<JsonError>))
    ensures
        member(cs@, q as int).member == (match r.0 {
            Some(m) => Some((m.0@, model(m.1))),
            None => None,
        }),
        member(cs@, q as int).end == r.1 as int,
        member(cs@, q as int).errs == r.2@,
    decreases cs@.len() - q, 11int,
{
    let n = cs.len();
    if !(q < n && cs[q] == '"') {
        return (None, q, Vec::new());
    }
    let (ok, end, text, mut errs) = str_scan_exec(cs, q + 1);
    if !ok {
        return (None, q, Vec::new());
    }
    proof {
        lemma_str_scan_end(cs@, q + 1, Seq::empty(), Seq::empty());
    }
    let c = skip_ws_exec(cs, end);
    if !at_exec(cs, c, ':') {
        return (None, q, Vec::new());
    }
    let v = value_exec(cs, c + 1);
    let Read { val, end: v_end, errs: mut more } = v;
    match val {
        Some(x) => {
            errs.append(&mut more);
            (Some((crate::text::string_from(&text), x)), v_end, errs)
        },
        None => (None, q, Vec::new()),
    }
}

fn object_exec(cs: &[char], p: usize) -> (r: Read)
    ensures
        reads(r, object(cs@, p as int)),
    decreases cs@.len() - p, 13int,
{
    let ghost s = cs@;
    let n = cs.len();
    if p > n {
        return no_read(p);
    }
    let q = skip_ws_exec(cs, p);
    let (first, first_end, first_errs) = member_exec(cs, q);
    let ghost first_spec = member(s, q as int);
    let has_first = first.is_some() && q < first_end && first_end <= n;
    let mut members: Vec<(String, JsonValue)> = Vec::new();
    let mut errs: Vec<JsonError> = Vec::new();
    let mut r: usize = q;
    if has_first {
        match first {
            Some(m) => {
                proof {
                    lemma_member_models_push(members@, m);
                }
                members.push(m);
            },
            None => {},
        }
        errs = first_errs;
        r = first_end;
    }
    let ghost target = if has_first {
        object_rest(s, first_end as int, seq![first_spec.member->0], first_spec.errs)
    } else {
        object_rest(s, q as int, Seq::empty(), Seq::empty())
    };
    assert(target == object_rest(s, r as int, member_models(members@), errs@));
    let mut st_end: usize = r;
    loop
        invariant_except_break
            p <= r <= n,
            target == object_rest(s, r as int, member_models(members@), errs@),
        invariant
            n == cs@.len(),
            s == cs@,
            p <= q,
        ensures
            target == (ObjState { members: member_models(members@), end: st_end as int, errs: errs@ }),
        decreases n - r,
    {
        let t = skip_ws_exec(cs, r);
        if at_exec(cs, t, ',') {
            let a = skip_ws_exec(cs, t + 1);
            let (m, m_end, mut m_errs) = member_exec(cs, a);
            if m.is_some() && a < m_end && m_end <= n {
                match m {
                    Some(x) => {
                        proof {
                            lemma_member_models_push(members@, x);
                        }
                        members.push(x);
                    },
                    None => {},
                }
                errs.append(&mut m_errs);
                r = m_end;
            } else {
                r = a;
            }
        } else {
            let (m, m_end, mut m_errs) = member_exec(cs, r);
            if m.is_some() && r < m_end && m_end <= n {
                match m {
                    Some(x) => {
                        proof {
                            lemma_member_models_push(members@, x);
                        }
                        members.push(x);
                    },
                    None => {},
                }
                errs.append(&mut m_errs);
                errs.push(
                    JsonError {
                        reason: JsonErrorReason::Custom(JsonDiagnostic::MissingComma),
                        start: r,
                        end: m_end,
                    },
                );
                r = m_end;
            } else {
                st_end = r;
                break ;
            }
        }
    }
    if !has_first && members.len() > 0 {
        errs.push(
            JsonError {
                reason: JsonErrorReason::Custom(JsonDiagnostic::LeadingComma),
                start: q,
                end: st_end,
            },
        );
    }
    let q2 = skip_ws_exec(cs, st_end);
    match close_exec(cs, q2, '}') {
        Some((e, err)) => {
            if err {
                errs.push(unexpected_exec(cs, q2));
            }
            Read { val: Some(JsonValue::Object(members)), end: e, errs }
        },
        None => no_read(p),
    }
}

// ---------------------------------------------------------------------------
// Entry points
// ---------------------------------------------------------------------------

/// Reads one JSON value from `input`, trimmed of whitespace: the value, or
/// `None` where none could be read (or where characters follow it), and the
/// errors reported on the way. Positions are character indices into the
/// trimmed input.
pub fn parse_json(input: &str) -> (r: (Option<JsonValue>, Vec<JsonError>))
    ensures
        (opt_model(r.0), r.1@) == parse_spec(input@),
{
    let all = crate::text::chars_of(input);
    let (a, b) = crate::text::trim_range(&all, 0, all.len());
    assert(all@.subrange(0, all@.len() as int) =~= all@);
    let cs = crate::text::copy_range(&all, a, b);
    let ghost s = cs@;
    assert(s == trim(input@));
    let v = value_exec(&cs, 0);
    let Read { val, end, mut errs } = v;
    match val {
        Some(x) => {
            if end == cs.len() {
                (Some(x), errs)
            } else {
                errs.push(unexpected_exec(&cs, end));
                (None, errs)
            }
        },
        None => (None, errs),
    }
}

/// The errors of `errs` that are diagnostics (`custom`) or that are not.
pub open spec fn errors_of(errs: Seq<JsonError>, custom: bool) -> Seq<JsonError>
    decreases errs.len(),
{
    if errs.len() == 0 {
        Seq::empty()
    } else {
        let rest = errors_of(errs.drop_last(), custom);
        if (errs.last().reason is Custom) == custom {
            rest.push(errs.last())
        } else {
            rest
        }
    }
}

/// Sorts errors into warnings (the diagnostics), recovered errors (the
/// others, where a value was read) and fatal errors (the others, where none
/// was), each in the order given.
pub fn classify_errors(errors: Vec<JsonError>, had_output: bool) -> (r: (
    Vec<JsonError>,
    Vec<JsonError>,
    Vec<JsonError>,
))
    ensures
        r.0@ == errors_of(errors@, true),
        r.1@ == (if had_output {
            errors_of(errors@, false)
        } else {
            Seq::empty()
        }),
        r.2@ == (if had_output {
            Seq::empty()
        } else {
            errors_of(errors@, false)
        }),
{
    let mut warnings: Vec<JsonError> = Vec::new();
    let mut others: Vec<JsonError> = Vec::new();
    let mut i: usize = 0;
    while i < errors.len()
        invariant
            i <= errors@.len(),
            warnings@ == errors_of(errors@.take(i as int), true),
            others@ == errors_of(errors@.take(i as int), false),
        decreases errors@.len() - i,
    {
        let e = errors[i];
        proof {
            assert(errors@.take(i + 1).drop_last() =~= errors@.take(i as int));
        }
        match e.reason {
            JsonErrorReason::Custom(_) => warnings.push(e),
            JsonErrorReason::ExpectedFound(_) => others.push(e),
        }
        i = i + 1;
    }
    assert(errors@.take(i as int) =~= errors@);
    if had_output {
        (warnings, others, Vec::new())
    } else {
        (warnings, Vec::new(), others)
    }
}

proof fn lemma_retry_failure(s: Seq<char>, q0: int, j: int)
    ensures
        retry(s, q0, j).val is None ==> retry(s, q0, j).errs == seq![unexpected(s, q0)],
    decreases s.len() - j,
{
    if 0 <= j < s.len() && s[j] != ',' && s[j] != ']' && s[j] != '}' {
        lemma_retry_failure(s, q0, j + 1);
    }
}

/// Where no value is read, at least one error says why.
pub proof fn lemma_no_value_has_error(input: Seq<char>)
    ensures
        parse_spec(input).0 is None ==> parse_spec(input).1.len() > 0,
{
    let s = trim(input);
    lemma_skip_ws(s, 0);
    lemma_retry_failure(s, skip_ws(s, 0), skip_ws(s, 0));
}

// ---------------------------------------------------------------------------
// `\u` escapes
// ---------------------------------------------------------------------------

/// What one ASCII hex digit is worth, whatever its case: `0`-`9` their
/// digit, `a`-`f` and `A`-`F` alike 10 to 15.
pub open spec fn hex_digit_worth(c: char) -> int {
    let l = crate::text::to_lower(c);
    if crate::text::is_digit(l) {
        l as int - '0' as int
    } else {
        l as int - 'a' as int + 10
    }
}

/// The number that the four hex digits `h` write in base 16, most
/// significant digit first.
pub open spec fn hex4_number(h: Seq<char>) -> int {
    4096 * hex_digit_worth(h[0]) + 256 * hex_digit_worth(h[1]) + 16 * hex_digit_worth(h[2])
        + hex_digit_worth(h[3])
}

/// The JSON text `"\uXXXX"`: a string that holds one `\u` escape with the
/// digits `h`.
pub open spec fn unicode_escape_text(h: Seq<char>) -> Seq<char> {
    seq!['"', '\\', 'u'] + h + seq!['"']
}

proof fn lemma_hex_worth(c: char)
    requires
        is_hex(c),
    ensures
        hex_value(c) == hex_digit_worth(c),
        is_hex(crate::text::to_lower(c)),
        hex_digit_worth(crate::text::to_lower(c)) == hex_digit_worth(c),
        0 <= hex_digit_worth(c) < 16,
{
    if 'A' <= c && c <= 'F' {
        assert(crate::text::to_lower(c) as int == c as int + 32);
    }
}

/// Every `\u` escape with four hex digits, of either case, reads as the
/// character whose code is the base-16 number that the digits write; where
/// that number is a surrogate, it reads as U+FFFD with an
/// [`JsonDiagnostic::InvalidUnicode`] diagnostic over the digits. Reading
/// then goes on after the escape.
pub proof fn lemma_unicode_escape_reads_hex(
    s: Seq<char>,
    p: int,
    text: Seq<char>,
    errs: Seq<JsonError>,
)
    requires
        0 <= p,
        p + 5 < s.len(),
        s[p] == '\\',
        s[p + 1] == 'u',
        forall|i: int| p + 2 <= i < p + 6 ==> is_hex(#[trigger] s[i]),
    ensures
        ({
            let n = hex4_number(s.subrange(p + 2, p + 6));
            str_scan(s, p, text, errs) == if !(0xD800 <= n <= 0xDFFF) {
                str_scan(s, p + 6, text.push(n as char), errs)
            } else {
                str_scan(
                    s,
                    p + 6,
                    text.push('\u{fffd}'),
                    errs.push(diagnostic(JsonDiagnostic::InvalidUnicode, p + 2, p + 6)),
                )
            }
        }),
{
    let h = s.subrange(p + 2, p + 6);
    assert(is_hex(s[p + 2]) && is_hex(s[p + 3]) && is_hex(s[p + 4]) && is_hex(s[p + 5]));
    lemma_hex_worth(s[p + 2]);
    lemma_hex_worth(s[p + 3]);
    lemma_hex_worth(s[p + 4]);
    lemma_hex_worth(s[p + 5]);
    assert(h[0] == s[p + 2] && h[1] == s[p + 3] && h[2] == s[p + 4] && h[3] == s[p + 5]);
    assert(0 <= hex4_number(h) <= 0xFFFF);
}

/// Reading the JSON text `"\uXXXX"` for any four hex digits `h`, of either
/// case, gives the one-character string whose code is the base-16 number
/// that `h` writes, with no error; where that number is a surrogate, the
/// string holds U+FFFD and an [`JsonDiagnostic::InvalidUnicode`] diagnostic
/// covers the digits.
pub proof fn lemma_unicode_escape_value(h: Seq<char>)
    requires
        h.len() == 4,
        forall|i: int| 0 <= i < 4 ==> is_hex(#[trigger] h[i]),
    ensures
        parse_spec(unicode_escape_text(h)) == if !(0xD800 <= hex4_number(h) <= 0xDFFF) {
            (Some(JsonModel::Str(seq![hex4_number(h) as char])), Seq::<JsonError>::empty())
        } else {
            (
                Some(JsonModel::Str(seq!['\u{fffd}'])),
                seq![diagnostic(JsonDiagnostic::InvalidUnicode, 3, 7)],
            )
        },
{
    let d = unicode_escape_text(h);
    assert(d.len() == 8);
    assert(d[0] == '"' && d[1] == '\\' && d[2] == 'u' && d[7] == '"');
    assert(d[3] == h[0] && d[4] == h[1] && d[5] == h[2] && d[6] == h[3]);
    crate::text::lemma_trim_plain(d);
    assert(skip_ws(d, 0) == 0);
    assert(is_hex(h[0]) && is_hex(h[1]) && is_hex(h[2]) && is_hex(h[3]));
    lemma_unicode_escape_reads_hex(d, 1, Seq::empty(), Seq::empty());
    assert(d.subrange(3, 7) =~= h);
    let n = hex4_number(h);
    lemma_hex_worth(h[0]);
    lemma_hex_worth(h[1]);
    lemma_hex_worth(h[2]);
    lemma_hex_worth(h[3]);
    assert(0 <= n <= 0xFFFF);
    let ch = if is_scalar(n) {
        n as char
    } else {
        '\u{fffd}'
    };
    let es = if is_scalar(n) {
        Seq::<JsonError>::empty()
    } else {
        Seq::<JsonError>::empty().push(diagnostic(JsonDiagnostic::InvalidUnicode, 3, 7))
    };
    assert(str_scan(d, 7, Seq::<char>::empty().push(ch), es) == StrScan {
        ok: true,
        end: 8,
        text: Seq::<char>::empty().push(ch),
        errs: es,
    });
    assert(Seq::<char>::empty().push(ch) =~= seq![ch]);
    assert(es =~= (if is_scalar(n) {
        Seq::<JsonError>::empty()
    } else {
        seq![diagnostic(JsonDiagnostic::InvalidUnicode, 3, 7)]
    }));
    assert(skip_ws(d, 8) == 8);
}

/// The case of the hex digits in a `\u` escape does not matter: reading
/// `"\uXXXX"` gives the same as reading it with the digits lower-cased.
pub proof fn lemma_unicode_escape_case(h: Seq<char>)
    requires
        h.len() == 4,
        forall|i: int| 0 <= i < 4 ==> is_hex(#[trigger] h[i]),
    ensures
        parse_spec(unicode_escape_text(h)) == parse_spec(
            unicode_escape_text(crate::text::lower(h)),
        ),
{
    let l = crate::text::lower(h);
    assert(is_hex(h[0]) && is_hex(h[1]) && is_hex(h[2]) && is_hex(h[3]));
    lemma_hex_worth(h[0]);
    lemma_hex_worth(h[1]);
    lemma_hex_worth(h[2]);
    lemma_hex_worth(h[3]);
    assert(l.len() == 4);
    assert(l[0] == crate::text::to_lower(h[0]) && l[1] == crate::text::to_lower(h[1]));
    assert(l[2] == crate::text::to_lower(h[2]) && l[3] == crate::text::to_lower(h[3]));
    assert forall|i: int| 0 <= i < 4 implies is_hex(#[trigger] l[i]) by {
        lemma_hex_worth(h[i]);
    }
    assert(hex4_number(l) == hex4_number(h));
    lemma_unicode_escape_value(h);
    lemma_unicode_escape_value(l);
}

} // verus!
