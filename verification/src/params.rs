//! Structured header values: `#EXWAV` flags, `#WAVCMD`, `#BGA` / `#@BGA`
//! rectangles, `#EXBMP` / `#ARGB` colours, `#SWBGA` and `#STP`.
//!
//! Each parser returns `None` when the text does not have the value's shape;
//! the header then falls back to an unrecognized header.

use vstd::prelude::*;

use crate::index::{ascii_text, index_from_text, index_text_ok, BmsIndex, WavIndex};
use crate::text::{dec, sdec, first_index, is_ascii_ws, is_float_literal, parse_int, split_on, trim, ws_tokens};

verus! {

// ---------------------------------------------------------------------------
// Scanning helpers
// ---------------------------------------------------------------------------

/// The first position at or after `i` that is not ASCII whitespace.
pub open spec fn skip_ascii_ws(s: Seq<char>, i: int) -> int
    decreases s.len() - i,
{
    if 0 <= i < s.len() && is_ascii_ws(s[i]) {
        skip_ascii_ws(s, i + 1)
    } else {
        i
    }
}

/// The first position at or after `i` that is ASCII whitespace or the end.
pub open spec fn word_end(s: Seq<char>, i: int) -> int
    decreases s.len() - i,
{
    if 0 <= i < s.len() && !is_ascii_ws(s[i]) {
        word_end(s, i + 1)
    } else {
        i
    }
}

pub fn skip_ascii_ws_exec(s: &[char], i: usize) -> (r: usize)
    requires
        i <= s@.len(),
    ensures
        r == skip_ascii_ws(s@, i as int),
        i <= r <= s@.len(),
{
    let mut k = i;
    while k < s.len() && crate::text::is_ascii_ws_char(s[k])
        invariant
            i <= k <= s@.len(),
            skip_ascii_ws(s@, k as int) == skip_ascii_ws(s@, i as int),
        decreases s.len() - k,
    {
        k = k + 1;
    }
    k
}

pub fn word_end_exec(s: &[char], i: usize) -> (r: usize)
    requires
        i <= s@.len(),
    ensures
        r == word_end(s@, i as int),
        i <= r <= s@.len(),
{
    let mut k = i;
    while k < s.len() && !crate::text::is_ascii_ws_char(s[k])
        invariant
            i <= k <= s@.len(),
            word_end(s@, k as int) == word_end(s@, i as int),
        decreases s.len() - k,
    {
        k = k + 1;
    }
    k
}

// ---------------------------------------------------------------------------
// #EXWAV
// ---------------------------------------------------------------------------

/// The value of `#EXWAV{id} [pvf] [pan] [volume] [frequency] filename`.
///
/// The flags say which numbers follow, in the order given: `p` a pan from
/// -10000 to 10000, `v` a volume from -10000 to 0, `f` a frequency from 100
/// to 100000.  Without flags the whole value is the file name.
#[derive(Debug, Clone, PartialEq, Eq)]
pub struct ExWavParams<C = String> {
    /// Pan, when the `p` flag is given.
    pub pan: Option<i32>,
    /// Volume, when the `v` flag is given.
    pub volume: Option<i32>,
    /// Frequency in Hz, when the `f` flag is given.
    pub frequency: Option<u32>,
    /// The file name (what follows the last number; may hold spaces).
    pub filename: C,
}

impl View for ExWavParams<String> {
    type V = ExWavParams<Seq<char>>;

    open spec fn view(&self) -> ExWavParams<Seq<char>> {
        ExWavParams {
            pan: self.pan,
            volume: self.volume,
            frequency: self.frequency,
            filename: self.filename@,
        }
    }
}

/// Whether `t` is a flag word: one to three of `p`, `v`, `f`.
pub open spec fn is_flag_word(t: Seq<char>) -> bool {
    &&& 0 < t.len() <= 3
    &&& forall|i: int| 0 <= i < t.len() ==> #[trigger] t[i] == 'p' || t[i] == 'v' || t[i] == 'f'
}

/// Reads the numbers that `flags` announce, starting at `pos` of `s`; gives
/// the values read so far and the position after the last number.
pub open spec fn exwav_numbers(
    s: Seq<char>,
    flags: Seq<char>,
    pos: int,
    acc: ExWavParams<Seq<char>>,
) -> Option<(ExWavParams<Seq<char>>, int)>
    decreases flags.len(),
{
    if flags.len() == 0 {
        Some((acc, pos))
    } else {
        let st = skip_ascii_ws(s, pos);
        let en = word_end(s, st);
        let f = flags[0];
        match parse_int(s.subrange(st, en), true, i64::MIN as int, i64::MAX as int) {
            None => None,
            Some(v) => if f == 'p' {
                if -10000 <= v <= 10000 {
                    exwav_numbers(
                        s,
                        flags.drop_first(),
                        en,
                        ExWavParams {
                            pan: Some(v as i32),
                            volume: acc.volume,
                            frequency: acc.frequency,
                            filename: acc.filename,
                        },
                    )
                } else {
                    None
                }
            } else if f == 'v' {
                if -10000 <= v <= 0 {
                    exwav_numbers(
                        s,
                        flags.drop_first(),
                        en,
                        ExWavParams {
                            pan: acc.pan,
                            volume: Some(v as i32),
                            frequency: acc.frequency,
                            filename: acc.filename,
                        },
                    )
                } else {
                    None
                }
            } else if f == 'f' {
                if 100 <= v <= 100000 {
                    exwav_numbers(
                        s,
                        flags.drop_first(),
                        en,
                        ExWavParams {
                            pan: acc.pan,
                            volume: acc.volume,
                            frequency: Some(v as u32),
                            filename: acc.filename,
                        },
                    )
                } else {
                    None
                }
            } else {
                None
            },
        }
    }
}

/// The `#EXWAV` value that `s` denotes.  With a flag word first, its numbers
/// are read from the position after the word's length, and the file name is
/// the non-empty rest after the last number; otherwise the whole trimmed
/// value is the file name.
pub open spec fn exwav_of(s: Seq<char>) -> Option<ExWavParams<Seq<char>>> {
    let toks = ws_tokens(s);
    if toks.len() == 0 {
        None
    } else if is_flag_word(toks[0]) {
        let none = ExWavParams {
            pan: None,
            volume: None,
            frequency: None,
            filename: Seq::<char>::empty(),
        };
        match exwav_numbers(s, toks[0], toks[0].len() as int, none) {
            None => None,
            Some((p, end)) => {
                let st = skip_ascii_ws(s, end);
                if st < s.len() {
                    Some(
                        ExWavParams {
                            pan: p.pan,
                            volume: p.volume,
                            frequency: p.frequency,
                            filename: s.skip(st),
                        },
                    )
                } else {
                    None
                }
            },
        }
    } else {
        Some(
            ExWavParams {
                pan: None,
                volume: None,
                frequency: None,
                filename: trim(s),
            },
        )
    }
}

impl ExWavParams<String> {
    /// Parses an `#EXWAV` value.
    pub fn parse(s: &str) -> (r: Option<Self>)
        ensures
            match exwav_of(s@) {
                Some(p) => r matches Some(q) && q@ == p,
                None => r is None,
            },
    {
        let cs = crate::text::chars_of(s);
        ExWavParams::parse_chars(&cs)
    }

    /// Parses an `#EXWAV` value held as characters.
    pub fn parse_chars(s: &[char]) -> (r: Option<Self>)
        ensures
            match exwav_of(s@) {
                Some(p) => r matches Some(q) && q@ == p,
                None => r is None,
            },
    {
        let n = s.len();
        let toks = crate::text::ws_token_ranges(s, 0, n);
        proof {
            assert(s@.subrange(0, n as int) =~= s@);
        }
        if toks.len() == 0 {
            return None;
        }
        let (a, b) = toks[0];
        let ghost first = s@.subrange(a as int, b as int);
        let mut is_flags = b - a <= 3 && a < b;
        let mut k = a;
        while k < b
            invariant
                a <= k <= b <= n == s@.len(),
                first == s@.subrange(a as int, b as int),
                is_flags == (0 < first.len() <= 3 && forall|i: int|
                    0 <= i < k - a ==> #[trigger] first[i] == 'p' || first[i] == 'v' || first[i]
                        == 'f'),
            decreases b - k,
        {
            let c = s[k];
            assert(first[k - a] == c);
            if !(c == 'p' || c == 'v' || c == 'f') {
                is_flags = false;
            }
            k = k + 1;
        }
        if !is_flags {
            let (t0, t1) = crate::text::trim_range(s, 0, n);
            return Some(
                ExWavParams {
                    pan: None,
                    volume: None,
                    frequency: None,
                    filename: crate::text::string_from_range(s, t0, t1),
                },
            );
        }
        assert(first == ws_tokens(s@)[0]);
        assert(is_flag_word(first));
        let ghost none = ExWavParams {
            pan: None,
            volume: None,
            frequency: None,
            filename: Seq::<char>::empty(),
        };
        let ghost whole = exwav_numbers(s@, first, first.len() as int, none);
        assert(whole is None ==> exwav_of(s@) is None);
        let mut pan: Option<i32> = None;
        let mut volume: Option<i32> = None;
        let mut frequency: Option<u32> = None;
        let mut consumed: usize = b - a;
        let mut j = a;
        assert(first.skip(0) =~= first);
        while j < b
            invariant
                a <= j <= b <= n == s@.len(),
                consumed <= n,
                first == s@.subrange(a as int, b as int),
                ws_tokens(s@).len() > 0,
                first == ws_tokens(s@)[0],
                is_flag_word(first),
                whole == exwav_numbers(s@, first, first.len() as int, none),
                whole is None ==> exwav_of(s@) is None,
                exwav_numbers(
                    s@,
                    first.skip(j - a),
                    consumed as int,
                    ExWavParams { pan, volume, frequency, filename: Seq::<char>::empty() },
                ) == whole,
            decreases b - j,
        {
            let flag = s[j];
            let ghost rest = first.skip(j - a);
            assert(rest[0] == flag);
            assert(rest.drop_first() =~= first.skip(j + 1 - a));
            let ghost acc = ExWavParams { pan, volume, frequency, filename: Seq::<char>::empty() };
            let ghost c0 = consumed as int;
            let st = skip_ascii_ws_exec(s, consumed);
            let en = word_end_exec(s, st);
            consumed = en;
            let v = match crate::text::parse_signed(s, st, en, i64::MIN, i64::MAX) {
                Some(v) => v,
                None => {
                    assert(exwav_numbers(s@, rest, c0, acc) is None);
                    return None;
                },
            };
            if flag == 'p' {
                if !(-10000 <= v && v <= 10000) {
                    return None;
                }
                pan = Some(v as i32);
            } else if flag == 'v' {
                if !(-10000 <= v && v <= 0) {
                    return None;
                }
                volume = Some(v as i32);
            } else if flag == 'f' {
                if !(100 <= v && v <= 100000) {
                    return None;
                }
                frequency = Some(v as u32);
            } else {
                assert(exwav_numbers(s@, rest, c0, acc) is None);
                return None;
            }
            j = j + 1;
        }
        proof {
            assert(first.skip(b - a).len() == 0);
        }
        let st = skip_ascii_ws_exec(s, consumed);
        if st < n {
            Some(
                ExWavParams {
                    pan,
                    volume,
                    frequency,
                    filename: crate::text::string_from_range(s, st, n),
                },
            )
        } else {
            None
        }
    }
}

// ---------------------------------------------------------------------------
// #WAVCMD
// ---------------------------------------------------------------------------

/// The kind of a `#WAVCMD` adjustment.
#[derive(Debug, Clone, Copy, PartialEq, Eq, Structural)]
pub enum WavCmdKind {
    /// `00`: pitch (a MIDI note number, 0–127).
    Pitch,
    /// `01`: volume.
    Volume,
    /// `02`: time.
    Time,
}

/// The kind that a `#WAVCMD` kind text names.
pub open spec fn wav_cmd_kind_of(s: Seq<char>) -> Option<WavCmdKind> {
    if s == seq!['0', '0'] {
        Some(WavCmdKind::Pitch)
    } else if s == seq!['0', '1'] {
        Some(WavCmdKind::Volume)
    } else if s == seq!['0', '2'] {
        Some(WavCmdKind::Time)
    } else {
        None
    }
}

impl WavCmdKind {
    /// Reads `cs[from..to]` as a kind.
    pub fn from_chars(cs: &[char], from: usize, to: usize) -> (r: Option<Self>)
        requires
            from <= to <= cs@.len(),
        ensures
            r == wav_cmd_kind_of(cs@.subrange(from as int, to as int)),
    {
        if crate::text::range_eq(cs, from, to, &['0', '0']) {
            Some(WavCmdKind::Pitch)
        } else if crate::text::range_eq(cs, from, to, &['0', '1']) {
            Some(WavCmdKind::Volume)
        } else if crate::text::range_eq(cs, from, to, &['0', '2']) {
            Some(WavCmdKind::Time)
        } else {
            None
        }
    }

    /// The kind's code: `00`, `01` or `02`.
    pub fn to_string(&self) -> (r: String)
        ensures
            wav_cmd_kind_of(r@) == Some(*self),
    {
        let r = match self {
            WavCmdKind::Pitch => crate::text::string_from(&['0', '0']),
            WavCmdKind::Volume => crate::text::string_from(&['0', '1']),
            WavCmdKind::Time => crate::text::string_from(&['0', '2']),
        };
        proof {
            assert(seq!['0', '1'][1] != seq!['0', '0'][1]);
            assert(seq!['0', '2'][1] != seq!['0', '0'][1]);
            assert(seq!['0', '2'][1] != seq!['0', '1'][1]);
        }
        r
    }
}

/// The value of `#WAVCMD kind wav value`.
#[derive(Debug, Clone, PartialEq, Eq)]
pub struct WavCmdParams {
    /// What is adjusted.
    pub command: WavCmdKind,
    /// The sound adjusted.
    pub wav_index: WavIndex,
    /// The amount; at most 127 for a pitch.
    pub value: u32,
}

/// The `#WAVCMD` value that `s` denotes: exactly three words, a kind, a
/// Base62 sound index and a `u32`, the pitch at most 127.
pub open spec fn wav_cmd_of(s: Seq<char>) -> Option<WavCmdParams> {
    let t = ws_tokens(s);
    if t.len() != 3 {
        None
    } else {
        match (wav_cmd_kind_of(t[0]), parse_int(t[2], false, 0, u32::MAX as int)) {
            (Some(k), Some(v)) => if index_text_ok(t[1]) && !(k == WavCmdKind::Pitch && v > 127) {
                Some(
                    WavCmdParams {
                        command: k,
                        wav_index: WavIndex(index_from_text(t[1])),
                        value: v as u32,
                    },
                )
            } else {
                None
            },
            _ => None,
        }
    }
}

impl WavCmdParams {
    /// Reads `cs[from..to]` as a `#WAVCMD` value.
    pub fn from_chars(cs: &[char], from: usize, to: usize) -> (r: Option<Self>)
        requires
            from <= to <= cs@.len(),
        ensures
            r == wav_cmd_of(cs@.subrange(from as int, to as int)),
    {
        let t = crate::text::ws_token_ranges(cs, from, to);
        if t.len() != 3 {
            return None;
        }
        let (a0, b0) = t[0];
        let (a1, b1) = t[1];
        let (a2, b2) = t[2];
        let k = WavCmdKind::from_chars(cs, a0, b0);
        let idx = BmsIndex::parse_chars(cs, a1, b1);
        let v = crate::text::parse_unsigned(cs, a2, b2, 4294967295);
        match (k, idx, v) {
            (Some(k), Some(idx), Some(v)) => {
                if k == WavCmdKind::Pitch && v > 127 {
                    None
                } else {
                    Some(WavCmdParams { command: k, wav_index: WavIndex(idx), value: v as u32 })
                }
            },
            _ => None,
        }
    }

    /// Parses a `#WAVCMD` value.
    pub fn parse_str(s: &str) -> (r: Option<Self>)
        ensures
            r == wav_cmd_of(s@),
    {
        let cs = crate::text::chars_of(s);
        proof {
            assert(cs@.subrange(0, cs@.len() as int) =~= s@);
        }
        WavCmdParams::from_chars(&cs, 0, cs.len())
    }
}

impl core::str::FromStr for WavCmdParams {
    type Err = ();

    fn from_str(s: &str) -> (r: Result<Self, Self::Err>)
        ensures
            match wav_cmd_of(s@) {
                Some(p) => r == Ok::<Self, ()>(p),
                None => r == Err::<Self, ()>(()),
            },
    {
        match WavCmdParams::parse_str(s) {
            Some(p) => Ok(p),
            None => Err(()),
        }
    }
}

impl core::str::FromStr for WavCmdKind {
    type Err = ();

    fn from_str(s: &str) -> (r: Result<Self, Self::Err>)
        ensures
            match wav_cmd_kind_of(s@) {
                Some(k) => r == Ok::<Self, ()>(k),
                None => r == Err::<Self, ()>(()),
            },
    {
        let cs = crate::text::chars_of(s);
        proof {
            assert(cs@.subrange(0, cs@.len() as int) =~= s@);
        }
        match WavCmdKind::from_chars(&cs, 0, cs.len()) {
            Some(k) => Ok(k),
            None => Err(()),
        }
    }
}

// ---------------------------------------------------------------------------
// Colours and rectangles
// ---------------------------------------------------------------------------

/// The value of an optional integer, `0` when absent.
pub open spec fn or_zero(o: Option<int>) -> int {
    match o {
        Some(v) => v,
        None => 0,
    }
}

/// `a,r,g,b`: exactly four comma-separated `u8` values, each trimmed.
pub open spec fn argb_of(s: Seq<char>) -> Option<(u8, u8, u8, u8)> {
    let p = split_on(s, ',');
    if p.len() == 4 && (forall|i: int|
        0 <= i < 4 ==> #[trigger] parse_int(trim(p[i]), false, 0, 255) is Some) {
        Some(
            (
                or_zero(parse_int(trim(p[0]), false, 0, 255)) as u8,
                or_zero(parse_int(trim(p[1]), false, 0, 255)) as u8,
                or_zero(parse_int(trim(p[2]), false, 0, 255)) as u8,
                or_zero(parse_int(trim(p[3]), false, 0, 255)) as u8,
            ),
        )
    } else {
        None
    }
}

/// Reads `cs[from..to]` as `a,r,g,b`.
fn parse_argb(cs: &[char], from: usize, to: usize) -> (r: Option<(u8, u8, u8, u8)>)
    requires
        from <= to <= cs@.len(),
    ensures
        r == argb_of(cs@.subrange(from as int, to as int)),
{
    let ghost s = cs@.subrange(from as int, to as int);
    let p = crate::text::split_ranges(cs, from, to, ',');
    if p.len() != 4 {
        return None;
    }
    let mut vals: Vec<u8> = Vec::new();
    let mut i: usize = 0;
    while i < 4
        invariant
            i <= 4,
            p@.len() == 4,
            vals@.len() == i,
            forall|k: int|
                0 <= k < 4 ==> from <= (#[trigger] p@[k]).0 <= p@[k].1 <= to && cs@.subrange(
                    p@[k].0 as int,
                    p@[k].1 as int,
                ) == split_on(s, ',')[k],
            s == cs@.subrange(from as int, to as int),
            to <= cs@.len(),
            forall|k: int|
                0 <= k < i ==> parse_int(trim(split_on(s, ',')[k]), false, 0, 255) == Some(
                    #[trigger] vals@[k] as int,
                ),
        decreases 4 - i,
    {
        let (a, b) = p[i];
        let (ta, tb) = crate::text::trim_range(cs, a, b);
        match crate::text::parse_unsigned(cs, ta, tb, 255) {
            Some(v) => {
                vals.push(v as u8);
            },
            None => {
                return None;
            },
        }
        i = i + 1;
    }
    Some((vals[0], vals[1], vals[2], vals[3]))
}

/// The value of `#ARGB{id} a,r,g,b`.
#[derive(Debug, Clone, PartialEq, Eq)]
pub struct ArgbParams {
    /// Alpha.
    pub a: u8,
    /// Red.
    pub r: u8,
    /// Green.
    pub g: u8,
    /// Blue.
    pub b: u8,
}

/// The `#ARGB` value that `s` denotes (after trimming).
pub open spec fn argb_params_of(s: Seq<char>) -> Option<ArgbParams> {
    match argb_of(trim(s)) {
        Some((a, r, g, b)) => Some(ArgbParams { a, r, g, b }),
        None => None,
    }
}

impl ArgbParams {
    /// Reads `cs[from..to]` as an `#ARGB` value.
    pub fn from_chars(cs: &[char], from: usize, to: usize) -> (r: Option<Self>)
        requires
            from <= to <= cs@.len(),
        ensures
            r == argb_params_of(cs@.subrange(from as int, to as int)),
    {
        let (ta, tb) = crate::text::trim_range(cs, from, to);
        match parse_argb(cs, ta, tb) {
            Some((a, r, g, b)) => Some(ArgbParams { a, r, g, b }),
            None => None,
        }
    }
}

/// The value of `#EXBMP{id} a,r,g,b filename`.
#[derive(Debug, Clone, PartialEq, Eq)]
pub struct ExBmpParams<C = String> {
    /// Alpha.
    pub a: u8,
    /// Red.
    pub r: u8,
    /// Green.
    pub g: u8,
    /// Blue.
    pub b: u8,
    /// The image file.
    pub filename: C,
}

impl View for ExBmpParams<String> {
    type V = ExBmpParams<Seq<char>>;

    open spec fn view(&self) -> ExBmpParams<Seq<char>> {
        ExBmpParams { a: self.a, r: self.r, g: self.g, b: self.b, filename: self.filename@ }
    }
}

/// The `#EXBMP` value that `s` denotes: a colour, a space, then the
/// (trimmed) file name.
pub open spec fn ex_bmp_of(s: Seq<char>) -> Option<ExBmpParams<Seq<char>>> {
    let k = first_index(s, ' ');
    if k < 0 {
        None
    } else {
        match argb_of(s.take(k)) {
            Some((a, r, g, b)) => Some(ExBmpParams { a, r, g, b, filename: trim(s.skip(k + 1)) }),
            None => None,
        }
    }
}

impl ExBmpParams<String> {
    /// Reads `cs[from..to]` as an `#EXBMP` value.
    pub fn from_chars(cs: &[char], from: usize, to: usize) -> (r: Option<Self>)
        requires
            from <= to <= cs@.len(),
        ensures
            match ex_bmp_of(cs@.subrange(from as int, to as int)) {
                Some(p) => r matches Some(q) && q@ == p,
                None => r is None,
            },
    {
        let ghost s = cs@.subrange(from as int, to as int);
        let k = crate::text::find_char(cs, from, to, ' ');
        if k == to {
            return None;
        }
        proof {
            assert(s.take(k - from) =~= cs@.subrange(from as int, k as int));
            assert(s.skip(k - from + 1) =~= cs@.subrange(k + 1, to as int));
        }
        match parse_argb(cs, from, k) {
            Some((a, r, g, b)) => {
                let (ta, tb) = crate::text::trim_range(cs, k + 1, to);
                Some(ExBmpParams { a, r, g, b, filename: crate::text::string_from_range(cs, ta, tb) })
            },
            None => None,
        }
    }
}

/// Seven whitespace-separated `i32` values.
pub open spec fn seven_ints_of(s: Seq<char>) -> Option<Seq<int>> {
    let t = ws_tokens(s);
    if t.len() == 7 && (forall|i: int|
        0 <= i < 7 ==> #[trigger] parse_int(t[i], true, i32::MIN as int, i32::MAX as int) is Some) {
        Some(Seq::new(7, |i: int| or_zero(parse_int(t[i], true, i32::MIN as int, i32::MAX as int))))
    } else {
        None
    }
}

/// Reads `cs[from..to]` as seven `i32` values.
fn parse_seven_ints(cs: &[char], from: usize, to: usize) -> (r: Option<Vec<i32>>)
    requires
        from <= to <= cs@.len(),
    ensures
        match seven_ints_of(cs@.subrange(from as int, to as int)) {
            Some(v) => r matches Some(w) && w@.len() == 7 && forall|i: int|
                0 <= i < 7 ==> #[trigger] w@[i] as int == v[i],
            None => r is None,
        },
{
    let ghost s = cs@.subrange(from as int, to as int);
    let t = crate::text::ws_token_ranges(cs, from, to);
    if t.len() != 7 {
        return None;
    }
    let mut vals: Vec<i32> = Vec::new();
    let mut i: usize = 0;
    while i < 7
        invariant
            i <= 7,
            t@.len() == 7,
            vals@.len() == i,
            s == cs@.subrange(from as int, to as int),
            to <= cs@.len(),
            ws_tokens(s).len() == 7,
            forall|k: int|
                0 <= k < 7 ==> from <= (#[trigger] t@[k]).0 <= t@[k].1 <= to && cs@.subrange(
                    t@[k].0 as int,
                    t@[k].1 as int,
                ) == ws_tokens(s)[k],
            forall|k: int|
                0 <= k < i ==> parse_int(ws_tokens(s)[k], true, i32::MIN as int, i32::MAX as int)
                    == Some(#[trigger] vals@[k] as int),
        decreases 7 - i,
    {
        let (a, b) = t[i];
        match crate::text::parse_signed(cs, a, b, -2147483648, 2147483647) {
            Some(v) => {
                vals.push(v as i32);
            },
            None => {
                return None;
            },
        }
        i = i + 1;
    }
    proof {
        assert forall|k: int|
            0 <= k < 7 implies #[trigger] parse_int(
            ws_tokens(s)[k],
            true,
            i32::MIN as int,
            i32::MAX as int,
        ) == Some(vals@[k] as int) by {
            assert(vals@[k] == vals@[k]);
        }
    }
    Some(vals)
}

/// The value of `#BGA{id} bmp x1 y1 x2 y2 dx dy`: copy the rectangle
/// `(x1, y1)`–`(x2, y2)` of image `bmp` to `(dx, dy)`.
#[derive(Debug, Clone, PartialEq, Eq)]
pub struct BgaParams {
    /// The source image.
    pub bmp_index: u16,
    /// Left of the source rectangle.
    pub x1: i32,
    /// Top of the source rectangle.
    pub y1: i32,
    /// Right of the source rectangle.
    pub x2: i32,
    /// Bottom of the source rectangle.
    pub y2: i32,
    /// Destination x.
    pub dx: i32,
    /// Destination y.
    pub dy: i32,
}

/// The `#BGA` value that `s` denotes; the image number must fit a `u16`.
pub open spec fn bga_of(s: Seq<char>) -> Option<BgaParams> {
    match seven_ints_of(s) {
        Some(v) => if 0 <= v[0] <= 65535 {
            Some(
                BgaParams {
                    bmp_index: v[0] as u16,
                    x1: v[1] as i32,
                    y1: v[2] as i32,
                    x2: v[3] as i32,
                    y2: v[4] as i32,
                    dx: v[5] as i32,
                    dy: v[6] as i32,
                },
            )
        } else {
            None
        },
        None => None,
    }
}

impl BgaParams {
    /// Reads `cs[from..to]` as a `#BGA` value.
    pub fn from_chars(cs: &[char], from: usize, to: usize) -> (r: Option<Self>)
        requires
            from <= to <= cs@.len(),
        ensures
            r == bga_of(cs@.subrange(from as int, to as int)),
    {
        match parse_seven_ints(cs, from, to) {
            Some(v) => {
                if 0 <= v[0] && v[0] <= 65535 {
                    Some(
                        BgaParams {
                            bmp_index: v[0] as u16,
                            x1: v[1],
                            y1: v[2],
                            x2: v[3],
                            y2: v[4],
                            dx: v[5],
                            dy: v[6],
                        },
                    )
                } else {
                    None
                }
            },
            None => None,
        }
    }
}

/// The value of `#@BGA{id} bmp sx sy w h dx dy`: copy the `w`×`h`
/// rectangle at `(sx, sy)` of image `bmp` to `(dx, dy)`.
#[derive(Debug, Clone, PartialEq, Eq)]
pub struct AtBgaParams {
    /// The source image.
    pub bmp_index: u16,
    /// Source x.
    pub sx: i32,
    /// Source y.
    pub sy: i32,
    /// Width.
    pub w: i32,
    /// Height.
    pub h: i32,
    /// Destination x.
    pub dx: i32,
    /// Destination y.
    pub dy: i32,
}

/// The `#@BGA` value that `s` denotes; the image number must fit a `u16`.
pub open spec fn at_bga_of(s: Seq<char>) -> Option<AtBgaParams> {
    match seven_ints_of(s) {
        Some(v) => if 0 <= v[0] <= 65535 {
            Some(
                AtBgaParams {
                    bmp_index: v[0] as u16,
                    sx: v[1] as i32,
                    sy: v[2] as i32,
                    w: v[3] as i32,
                    h: v[4] as i32,
                    dx: v[5] as i32,
                    dy: v[6] as i32,
                },
            )
        } else {
            None
        },
        None => None,
    }
}

impl AtBgaParams {
    /// Reads `cs[from..to]` as a `#@BGA` value.
    pub fn from_chars(cs: &[char], from: usize, to: usize) -> (r: Option<Self>)
        requires
            from <= to <= cs@.len(),
        ensures
            r == at_bga_of(cs@.subrange(from as int, to as int)),
    {
        match parse_seven_ints(cs, from, to) {
            Some(v) => {
                if 0 <= v[0] && v[0] <= 65535 {
                    Some(
                        AtBgaParams {
                            bmp_index: v[0] as u16,
                            sx: v[1],
                            sy: v[2],
                            w: v[3],
                            h: v[4],
                            dx: v[5],
                            dy: v[6],
                        },
                    )
                } else {
                    None
                }
            },
            None => None,
        }
    }
}

// ---------------------------------------------------------------------------
// #SWBGA
// ---------------------------------------------------------------------------

/// The value of `#SWBGA{id} fr:time:line:loop:a,r,g,b pattern`: a
/// key-bound BGA animation.
#[derive(Debug, Clone, PartialEq, Eq)]
pub struct SwBgaParams<C = String> {
    /// Frame interval.
    pub fr: u32,
    /// Total time.
    pub time: u32,
    /// Key line.
    pub line: u8,
    /// Whether the animation loops (`1`).
    pub looping: bool,
    /// Alpha.
    pub a: u8,
    /// Red.
    pub r: u8,
    /// Green.
    pub g: u8,
    /// Blue.
    pub b: u8,
    /// The frame pattern (trimmed).
    pub pattern: C,
}

impl View for SwBgaParams<String> {
    type V = SwBgaParams<Seq<char>>;

    open spec fn view(&self) -> SwBgaParams<Seq<char>> {
        SwBgaParams {
            fr: self.fr,
            time: self.time,
            line: self.line,
            looping: self.looping,
            a: self.a,
            r: self.r,
            g: self.g,
            b: self.b,
            pattern: self.pattern@,
        }
    }
}

/// The `#SWBGA` value that `s` denotes: before the first space exactly five
/// `:`-separated groups (`u32`, `u32`, `u8`, loop flag, colour), after it the
/// pattern.
pub open spec fn sw_bga_of(s: Seq<char>) -> Option<SwBgaParams<Seq<char>>> {
    let k = first_index(s, ' ');
    if k < 0 {
        None
    } else {
        let g = split_on(s.take(k), ':');
        if g.len() != 5 {
            None
        } else {
            match (
                parse_int(g[0], false, 0, u32::MAX as int),
                parse_int(g[1], false, 0, u32::MAX as int),
                parse_int(g[2], false, 0, 255),
                argb_of(g[4]),
            ) {
                (Some(fr), Some(time), Some(line), Some((a, r, g2, b))) => Some(
                    SwBgaParams {
                        fr: fr as u32,
                        time: time as u32,
                        line: line as u8,
                        looping: g[3] == seq!['1'],
                        a,
                        r,
                        g: g2,
                        b,
                        pattern: trim(s.skip(k + 1)),
                    },
                ),
                _ => None,
            }
        }
    }
}

impl SwBgaParams<String> {
    /// Reads `cs[from..to]` as a `#SWBGA` value.
    pub fn from_chars(cs: &[char], from: usize, to: usize) -> (r: Option<Self>)
        requires
            from <= to <= cs@.len(),
        ensures
            match sw_bga_of(cs@.subrange(from as int, to as int)) {
                Some(p) => r matches Some(q) && q@ == p,
                None => r is None,
            },
    {
        let ghost s = cs@.subrange(from as int, to as int);
        let k = crate::text::find_char(cs, from, to, ' ');
        if k == to {
            return None;
        }
        proof {
            assert(s.take(k - from) =~= cs@.subrange(from as int, k as int));
            assert(s.skip(k - from + 1) =~= cs@.subrange(k + 1, to as int));
        }
        let g = crate::text::split_ranges(cs, from, k, ':');
        if g.len() != 5 {
            return None;
        }
        let fr = crate::text::parse_unsigned(cs, g[0].0, g[0].1, 4294967295);
        let time = crate::text::parse_unsigned(cs, g[1].0, g[1].1, 4294967295);
        let line = crate::text::parse_unsigned(cs, g[2].0, g[2].1, 255);
        let lp = crate::text::range_is_char(cs, g[3].0, g[3].1, '1');
        let argb = parse_argb(cs, g[4].0, g[4].1);
        match (fr, time, line, argb) {
            (Some(fr), Some(time), Some(line), Some((a, r, gg, b))) => {
                let (ta, tb) = crate::text::trim_range(cs, k + 1, to);
                Some(
                    SwBgaParams {
                        fr: fr as u32,
                        time: time as u32,
                        line: line as u8,
                        looping: lp,
                        a,
                        r,
                        g: gg,
                        b,
                        pattern: crate::text::string_from_range(cs, ta, tb),
                    },
                )
            },
            _ => None,
        }
    }
}

// ---------------------------------------------------------------------------
// #STP
// ---------------------------------------------------------------------------

/// The value of `#STP measure[.position] duration`: a stop of `duration`
/// milliseconds at a point of a measure.  The duration is kept as its
/// floating-point literal.
#[derive(Debug, Clone, PartialEq, Eq)]
pub struct StpParams<C = String> {
    /// The measure, 0–999.
    pub measure: u16,
    /// The position inside the measure, 0–999 (0 when not given).
    pub position: u16,
    /// The duration in milliseconds, as written.
    pub duration_ms: C,
}

impl View for StpParams<String> {
    type V = StpParams<Seq<char>>;

    open spec fn view(&self) -> StpParams<Seq<char>> {
        StpParams { measure: self.measure, position: self.position, duration_ms: self.duration_ms@ }
    }
}

/// The `#STP` value that `s` denotes: before the first space the measure
/// and an optional `.position`, both at most 999; after it a
/// floating-point duration (trimmed).
pub open spec fn stp_of(s: Seq<char>) -> Option<StpParams<Seq<char>>> {
    let k = first_index(s, ' ');
    if k < 0 {
        None
    } else {
        let pos = s.take(k);
        let dur = trim(s.skip(k + 1));
        let dot = first_index(pos, '.');
        let m = if dot < 0 {
            pos
        } else {
            pos.take(dot)
        };
        let p = if dot < 0 {
            seq!['0']
        } else {
            pos.skip(dot + 1)
        };
        match (parse_int(m, false, 0, 65535), parse_int(p, false, 0, 65535)) {
            (Some(mv), Some(pv)) => if is_float_literal(dur) && mv <= 999 && pv <= 999 {
                Some(StpParams { measure: mv as u16, position: pv as u16, duration_ms: dur })
            } else {
                None
            },
            _ => None,
        }
    }
}

impl StpParams<String> {
    /// Reads `cs[from..to]` as an `#STP` value.
    pub fn from_chars(cs: &[char], from: usize, to: usize) -> (r: Option<Self>)
        requires
            from <= to <= cs@.len(),
        ensures
            match stp_of(cs@.subrange(from as int, to as int)) {
                Some(p) => r matches Some(q) && q@ == p,
                None => r is None,
            },
    {
        let ghost s = cs@.subrange(from as int, to as int);
        let k = crate::text::find_char(cs, from, to, ' ');
        if k == to {
            return None;
        }
        let ghost pos = s.take(k - from);
        proof {
            assert(pos =~= cs@.subrange(from as int, k as int));
            assert(s.skip(k - from + 1) =~= cs@.subrange(k + 1, to as int));
        }
        let (ta, tb) = crate::text::trim_range(cs, k + 1, to);
        let is_float = crate::text::float_literal_ok(cs, ta, tb);
        let dot = crate::text::find_char(cs, from, k, '.');
        let (mv, pv) = if dot == k {
            let zero = ['0'];
            let z: &[char] = &zero;
            proof {
                assert(z@ =~= seq!['0']);
                assert(z@.subrange(0, 1) =~= seq!['0']);
            }
            (crate::text::parse_unsigned(cs, from, k, 65535), crate::text::parse_unsigned(z, 0, 1, 65535))
        } else {
            proof {
                assert(pos.take(dot - from) =~= cs@.subrange(from as int, dot as int));
                assert(pos.skip(dot - from + 1) =~= cs@.subrange(dot + 1, k as int));
            }
            (crate::text::parse_unsigned(cs, from, dot, 65535), crate::text::parse_unsigned(cs, dot + 1, k, 65535))
        };
        match (mv, pv) {
            (Some(mv), Some(pv)) => {
                if is_float && mv <= 999 && pv <= 999 {
                    Some(
                        StpParams {
                            measure: mv as u16,
                            position: pv as u16,
                            duration_ms: crate::text::string_from_range(cs, ta, tb),
                        },
                    )
                } else {
                    None
                }
            },
            _ => None,
        }
    }
}

// ---------------------------------------------------------------------------
// Writing values back
// ---------------------------------------------------------------------------

/// The code text of a `#WAVCMD` kind.
pub open spec fn wav_cmd_code(k: WavCmdKind) -> Seq<char> {
    match k {
        WavCmdKind::Pitch => seq!['0', '0'],
        WavCmdKind::Volume => seq!['0', '1'],
        WavCmdKind::Time => seq!['0', '2'],
    }
}

/// `" "` followed by the decimal text of `v`, where there is a value.
pub open spec fn opt_number_text(v: Option<int>) -> Seq<char> {
    match v {
        Some(x) => seq![' '] + sdec(x),
        None => Seq::empty(),
    }
}

pub open spec fn opt_i32(v: Option<i32>) -> Option<int> {
    match v {
        Some(x) => Some(x as int),
        None => None,
    }
}

pub open spec fn opt_u32(v: Option<u32>) -> Option<int> {
    match v {
        Some(x) => Some(x as int),
        None => None,
    }
}

/// The text of an `#EXWAV` value: the flags of the numbers given (`p`, `v`,
/// `f`, in this order), each number after a space, then a space and the
/// file name; without numbers, the file name alone.
pub open spec fn exwav_text(p: ExWavParams<Seq<char>>) -> Seq<char> {
    let flags = (if p.pan is Some {
        seq!['p']
    } else {
        Seq::empty()
    }) + (if p.volume is Some {
        seq!['v']
    } else {
        Seq::empty()
    }) + (if p.frequency is Some {
        seq!['f']
    } else {
        Seq::empty()
    });
    if flags.len() == 0 {
        p.filename
    } else {
        flags + opt_number_text(opt_i32(p.pan)) + opt_number_text(opt_i32(p.volume))
            + opt_number_text(opt_u32(p.frequency)) + seq![' '] + p.filename
    }
}

/// The text `a,r,g,b` of a colour.
pub open spec fn argb_text(a: u8, r: u8, g: u8, b: u8) -> Seq<char> {
    dec(a as nat) + seq![','] + dec(r as nat) + seq![','] + dec(g as nat) + seq![','] + dec(
        b as nat,
    )
}

/// The numbers of `v`, separated by single spaces.
pub open spec fn numbers_text(v: Seq<int>) -> Seq<char>
    decreases v.len(),
{
    if v.len() == 0 {
        Seq::empty()
    } else if v.len() == 1 {
        sdec(v[0])
    } else {
        numbers_text(v.drop_last()) + seq![' '] + sdec(v.last())
    }
}

/// `n` in decimal, padded with zeros to at least three digits.
pub open spec fn pad3(n: nat) -> Seq<char> {
    if n < 10 {
        seq!['0', '0'] + dec(n)
    } else if n < 100 {
        seq!['0'] + dec(n)
    } else {
        dec(n)
    }
}

/// The text of an `#STP` value: the measure in three digits, `.position`
/// unless the position is 0, a space and the duration as written.
pub open spec fn stp_text(p: StpParams<Seq<char>>) -> Seq<char> {
    pad3(p.measure as nat) + (if p.position == 0 {
        Seq::empty()
    } else {
        seq!['.'] + dec(p.position as nat)
    }) + seq![' '] + p.duration_ms
}

/// The text of a `#SWBGA` value.
pub open spec fn sw_bga_text(p: SwBgaParams<Seq<char>>) -> Seq<char> {
    dec(p.fr as nat) + seq![':'] + dec(p.time as nat) + seq![':'] + dec(p.line as nat) + seq![
        ':',
        if p.looping {
            '1'
        } else {
            '0'
        },
        ':',
    ] + argb_text(p.a, p.r, p.g, p.b) + seq![' '] + p.pattern
}

fn push_u64(out: &mut Vec<char>, n: u64)
    ensures
        final(out)@ == old(out)@ + dec(n as nat),
{
    let t = crate::text::fmt_u64(n);
    crate::text::extend_chars(out, &t);
}

fn push_i64(out: &mut Vec<char>, v: i64)
    ensures
        final(out)@ == old(out)@ + sdec(v as int),
{
    let t = crate::text::fmt_i64(v);
    crate::text::extend_chars(out, &t);
}

fn push_argb(out: &mut Vec<char>, a: u8, r: u8, g: u8, b: u8)
    ensures
        final(out)@ == old(out)@ + argb_text(a, r, g, b),
{
    let ghost start = out@;
    push_u64(out, a as u64);
    out.push(',');
    push_u64(out, r as u64);
    out.push(',');
    push_u64(out, g as u64);
    out.push(',');
    push_u64(out, b as u64);
    assert(out@ =~= start + argb_text(a, r, g, b));
}

impl ExWavParams<String> {
    /// The `#EXWAV` text of this value.
    pub fn to_string(&self) -> (r: String)
        ensures
            r@ == exwav_text(self@),
    {
        let mut flags: Vec<char> = Vec::new();
        let mut values: Vec<char> = Vec::new();
        if let Some(p) = self.pan {
            flags.push('p');
            values.push(' ');
            push_i64(&mut values, p as i64);
        }
        let ghost f1 = flags@;
        let ghost v1 = values@;
        if let Some(v) = self.volume {
            flags.push('v');
            values.push(' ');
            push_i64(&mut values, v as i64);
        }
        let ghost f2 = flags@;
        let ghost v2 = values@;
        if let Some(fr) = self.frequency {
            flags.push('f');
            values.push(' ');
            push_i64(&mut values, fr as i64);
        }
        proof {
            assert(v1 =~= opt_number_text(opt_i32(self.pan)));
            assert(v2 =~= v1 + opt_number_text(opt_i32(self.volume)));
            assert(values@ =~= v2 + opt_number_text(opt_u32(self.frequency)));
        }
        if flags.len() == 0 {
            proof {
                assert(f1.len() == 0 && f2.len() == 0);
            }
            return self.filename.clone();
        }
        let fc = crate::text::chars_of(self.filename.as_str());
        let mut out = flags;
        crate::text::extend_chars(&mut out, &values);
        out.push(' ');
        crate::text::extend_chars(&mut out, &fc);
        crate::text::string_from(&out)
    }
}

impl WavCmdParams {
    /// The `#WAVCMD` text of this value: kind, index and number, separated
    /// by spaces.
    pub fn to_string(&self) -> (r: String)
        ensures
            r@ == wav_cmd_code(self.command) + seq![' '] + ascii_text(self.wav_index.0@) + seq![' ']
                + dec(self.value as nat),
    {
        let mut out: Vec<char> = Vec::new();
        match self.command {
            WavCmdKind::Pitch => {
                out.push('0');
                out.push('0');
            },
            WavCmdKind::Volume => {
                out.push('0');
                out.push('1');
            },
            WavCmdKind::Time => {
                out.push('0');
                out.push('2');
            },
        }
        out.push(' ');
        let idx = crate::text::chars_of(self.wav_index.0.as_str().as_str());
        crate::text::extend_chars(&mut out, &idx);
        out.push(' ');
        push_u64(&mut out, self.value as u64);
        assert(out@ =~= wav_cmd_code(self.command) + seq![' '] + ascii_text(self.wav_index.0@)
            + seq![' '] + dec(self.value as nat));
        crate::text::string_from(&out)
    }
}

impl ArgbParams {
    /// The text `a,r,g,b` of this colour.
    pub fn to_string(&self) -> (r: String)
        ensures
            r@ == argb_text(self.a, self.r, self.g, self.b),
    {
        let mut out: Vec<char> = Vec::new();
        push_argb(&mut out, self.a, self.r, self.g, self.b);
        assert(out@ =~= argb_text(self.a, self.r, self.g, self.b));
        crate::text::string_from(&out)
    }
}

impl ExBmpParams<String> {
    /// The text `a,r,g,b filename` of this value.
    pub fn to_string(&self) -> (r: String)
        ensures
            r@ == argb_text(self.a, self.r, self.g, self.b) + seq![' '] + self.filename@,
    {
        let mut out: Vec<char> = Vec::new();
        push_argb(&mut out, self.a, self.r, self.g, self.b);
        out.push(' ');
        let fc = crate::text::chars_of(self.filename.as_str());
        crate::text::extend_chars(&mut out, &fc);
        assert(out@ =~= argb_text(self.a, self.r, self.g, self.b) + seq![' '] + self.filename@);
        crate::text::string_from(&out)
    }
}

fn numbers_string(v: &[i64]) -> (r: String)
    ensures
        r@ == numbers_text(v@.map_values(|x: i64| x as int)),
{
    let ghost m = v@.map_values(|x: i64| x as int);
    let mut out: Vec<char> = Vec::new();
    let mut i: usize = 0;
    while i < v.len()
        invariant
            i <= v@.len(),
            m == v@.map_values(|x: i64| x as int),
            out@ == numbers_text(m.take(i as int)),
        decreases v.len() - i,
    {
        if i > 0 {
            out.push(' ');
        }
        push_i64(&mut out, v[i]);
        proof {
            assert(m.take(i + 1).drop_last() =~= m.take(i as int));
            assert(m.take(i + 1).last() == v@[i as int] as int);
        }
        i = i + 1;
    }
    assert(m.take(i as int) =~= m);
    crate::text::string_from(&out)
}

impl BgaParams {
    /// The text of this value: its seven numbers, separated by spaces.
    pub fn to_string(&self) -> (r: String)
        ensures
            r@ == numbers_text(
                seq![
                    self.bmp_index as int,
                    self.x1 as int,
                    self.y1 as int,
                    self.x2 as int,
                    self.y2 as int,
                    self.dx as int,
                    self.dy as int,
                ],
            ),
    {
        let v: Vec<i64> = vec![
            self.bmp_index as i64,
            self.x1 as i64,
            self.y1 as i64,
            self.x2 as i64,
            self.y2 as i64,
            self.dx as i64,
            self.dy as i64,
        ];
        let r = numbers_string(&v);
        assert(v@.map_values(|x: i64| x as int) =~= seq![
            self.bmp_index as int,
            self.x1 as int,
            self.y1 as int,
            self.x2 as int,
            self.y2 as int,
            self.dx as int,
            self.dy as int,
        ]);
        r
    }
}

impl AtBgaParams {
    /// The text of this value: its seven numbers, separated by spaces.
    pub fn to_string(&self) -> (r: String)
        ensures
            r@ == numbers_text(
                seq![
                    self.bmp_index as int,
                    self.sx as int,
                    self.sy as int,
                    self.w as int,
                    self.h as int,
                    self.dx as int,
                    self.dy as int,
                ],
            ),
    {
        let v: Vec<i64> = vec![
            self.bmp_index as i64,
            self.sx as i64,
            self.sy as i64,
            self.w as i64,
            self.h as i64,
            self.dx as i64,
            self.dy as i64,
        ];
        let r = numbers_string(&v);
        assert(v@.map_values(|x: i64| x as int) =~= seq![
            self.bmp_index as int,
            self.sx as int,
            self.sy as int,
            self.w as int,
            self.h as int,
            self.dx as int,
            self.dy as int,
        ]);
        r
    }
}

impl SwBgaParams<String> {
    /// The `#SWBGA` text of this value.
    pub fn to_string(&self) -> (r: String)
        ensures
            r@ == sw_bga_text(self@),
    {
        let mut out: Vec<char> = Vec::new();
        push_u64(&mut out, self.fr as u64);
        out.push(':');
        push_u64(&mut out, self.time as u64);
        out.push(':');
        push_u64(&mut out, self.line as u64);
        out.push(':');
        out.push(if self.looping { '1' } else { '0' });
        out.push(':');
        push_argb(&mut out, self.a, self.r, self.g, self.b);
        out.push(' ');
        let pc = crate::text::chars_of(self.pattern.as_str());
        crate::text::extend_chars(&mut out, &pc);
        assert(out@ =~= sw_bga_text(self@));
        crate::text::string_from(&out)
    }
}

impl StpParams<String> {
    /// The `#STP` text of this value.
    pub fn to_string(&self) -> (r: String)
        ensures
            r@ == stp_text(self@),
    {
        let mut out: Vec<char> = Vec::new();
        if self.measure < 10 {
            out.push('0');
            out.push('0');
        } else if self.measure < 100 {
            out.push('0');
        }
        push_u64(&mut out, self.measure as u64);
        let ghost m = out@;
        assert(m =~= pad3(self.measure as nat));
        if self.position != 0 {
            out.push('.');
            push_u64(&mut out, self.position as u64);
        }
        out.push(' ');
        let dc = crate::text::chars_of(self.duration_ms.as_str());
        crate::text::extend_chars(&mut out, &dc);
        assert(out@ =~= stp_text(self@));
        crate::text::string_from(&out)
    }
}

// ---------------------------------------------------------------------------
// Reading values generically
// ---------------------------------------------------------------------------

/// A header value that can be read from its text.
pub trait BmsValue: Sized {
    /// Reads `s` as a value of this type; `None` where it is not one.
    fn parse(s: &str) -> Option<Self>;
}

impl BmsValue for ExWavParams<String> {
    fn parse(s: &str) -> (r: Option<Self>)
        ensures
            match exwav_of(s@) {
                Some(p) => r matches Some(q) && q@ == p,
                None => r is None,
            },
    {
        ExWavParams::<String>::parse(s)
    }
}

impl BmsValue for WavCmdParams {
    fn parse(s: &str) -> (r: Option<Self>)
        ensures
            r == wav_cmd_of(s@),
    {
        let cs = crate::text::chars_of(s);
        proof {
            assert(cs@.subrange(0, cs@.len() as int) =~= s@);
        }
        WavCmdParams::from_chars(&cs, 0, cs.len())
    }
}

impl BmsValue for ArgbParams {
    fn parse(s: &str) -> (r: Option<Self>)
        ensures
            r == argb_params_of(s@),
    {
        let cs = crate::text::chars_of(s);
        proof {
            assert(cs@.subrange(0, cs@.len() as int) =~= s@);
        }
        ArgbParams::from_chars(&cs, 0, cs.len())
    }
}

impl BmsValue for ExBmpParams<String> {
    fn parse(s: &str) -> (r: Option<Self>)
        ensures
            match ex_bmp_of(s@) {
                Some(p) => r matches Some(q) && q@ == p,
                None => r is None,
            },
    {
        let cs = crate::text::chars_of(s);
        proof {
            assert(cs@.subrange(0, cs@.len() as int) =~= s@);
        }
        ExBmpParams::<String>::from_chars(&cs, 0, cs.len())
    }
}

impl BmsValue for BgaParams {
    fn parse(s: &str) -> (r: Option<Self>)
        ensures
            r == bga_of(s@),
    {
        let cs = crate::text::chars_of(s);
        proof {
            assert(cs@.subrange(0, cs@.len() as int) =~= s@);
        }
        BgaParams::from_chars(&cs, 0, cs.len())
    }
}

impl BmsValue for AtBgaParams {
    fn parse(s: &str) -> (r: Option<Self>)
        ensures
            r == at_bga_of(s@),
    {
        let cs = crate::text::chars_of(s);
        proof {
            assert(cs@.subrange(0, cs@.len() as int) =~= s@);
        }
        AtBgaParams::from_chars(&cs, 0, cs.len())
    }
}

impl BmsValue for SwBgaParams<String> {
    fn parse(s: &str) -> (r: Option<Self>)
        ensures
            match sw_bga_of(s@) {
                Some(p) => r matches Some(q) && q@ == p,
                None => r is None,
            },
    {
        let cs = crate::text::chars_of(s);
        proof {
            assert(cs@.subrange(0, cs@.len() as int) =~= s@);
        }
        SwBgaParams::<String>::from_chars(&cs, 0, cs.len())
    }
}

impl BmsValue for StpParams<String> {
    fn parse(s: &str) -> (r: Option<Self>)
        ensures
            match stp_of(s@) {
                Some(p) => r matches Some(q) && q@ == p,
                None => r is None,
            },
    {
        let cs = crate::text::chars_of(s);
        proof {
            assert(cs@.subrange(0, cs@.len() as int) =~= s@);
        }
        StpParams::<String>::from_chars(&cs, 0, cs.len())
    }
}

// ---------------------------------------------------------------------------
// Reading back what was written
// ---------------------------------------------------------------------------

/// The text of a colour holds digits and commas only.
proof fn lemma_argb_text_plain(a: u8, r: u8, g: u8, b: u8)
    ensures
        argb_text(a, r, g, b).len() > 0,
        crate::text::no_ws(argb_text(a, r, g, b)),
        crate::text::lacks(argb_text(a, r, g, b), ' '),
        crate::text::lacks(argb_text(a, r, g, b), ':'),
{
    crate::text::lemma_dec_plain(a as nat);
    crate::text::lemma_dec_plain(r as nat);
    crate::text::lemma_dec_plain(g as nat);
    crate::text::lemma_dec_plain(b as nat);
    let t = argb_text(a, r, g, b);
    assert forall|i: int| 0 <= i < t.len() implies crate::text::is_digit(#[trigger] t[i]) || t[i] == ',' by {
    }
}

/// Writing a colour and reading it back gives the same colour.
pub proof fn lemma_argb_roundtrip(a: u8, r: u8, g: u8, b: u8)
    ensures
        argb_of(argb_text(a, r, g, b)) == Some((a, r, g, b)),
        argb_params_of(argb_text(a, r, g, b)) == Some(ArgbParams { a, r, g, b }),
{
    let da = dec(a as nat);
    let dr = dec(r as nat);
    let dg = dec(g as nat);
    let db = dec(b as nat);
    crate::text::lemma_dec_plain(a as nat);
    crate::text::lemma_dec_plain(r as nat);
    crate::text::lemma_dec_plain(g as nat);
    crate::text::lemma_dec_plain(b as nat);
    let t = argb_text(a, r, g, b);
    assert(t =~= da + seq![','] + (dr + seq![','] + (dg + seq![','] + db)));
    crate::text::lemma_split_on_sep(da, dr + seq![','] + (dg + seq![','] + db), ',');
    crate::text::lemma_split_on_sep(dr, dg + seq![','] + db, ',');
    crate::text::lemma_split_on_sep(dg, db, ',');
    crate::text::lemma_split_on_none(db, ',');
    let p = split_on(t, ',');
    assert(p =~= seq![da, dr, dg, db]);
    crate::text::lemma_trim_plain(da);
    crate::text::lemma_trim_plain(dr);
    crate::text::lemma_trim_plain(dg);
    crate::text::lemma_trim_plain(db);
    crate::text::lemma_dec_parses(a as nat, 0, 255, false);
    crate::text::lemma_dec_parses(r as nat, 0, 255, false);
    crate::text::lemma_dec_parses(g as nat, 0, 255, false);
    crate::text::lemma_dec_parses(b as nat, 0, 255, false);
    assert forall|i: int| 0 <= i < 4 implies #[trigger] parse_int(trim(p[i]), false, 0, 255) is Some by {
        if i == 0 {
        } else if i == 1 {
        } else if i == 2 {
        } else {
        }
    }
    lemma_argb_text_plain(a, r, g, b);
    assert(t[0] == da[0]);
    assert(t.last() == db.last());
    crate::text::lemma_trim_plain(t);
}

/// Writing an `#EXBMP` value and reading it back gives the same value,
/// for a file name without whitespace at either end.
pub proof fn lemma_ex_bmp_roundtrip(p: ExBmpParams<Seq<char>>)
    requires
        trim(p.filename) == p.filename,
    ensures
        ex_bmp_of(argb_text(p.a, p.r, p.g, p.b) + seq![' '] + p.filename) == Some(p),
{
    let c = argb_text(p.a, p.r, p.g, p.b);
    let s = c + seq![' '] + p.filename;
    lemma_argb_text_plain(p.a, p.r, p.g, p.b);
    lemma_argb_roundtrip(p.a, p.r, p.g, p.b);
    crate::text::lemma_first_index_at(c, p.filename, ' ');
    assert(s.take(c.len() as int) =~= c);
    assert(s.skip(c.len() + 1int) =~= p.filename);
}

/// The text of a valid index is one word.
proof fn lemma_index_text_plain(t: Seq<char>)
    requires
        index_text_ok(t),
    ensures
        t.len() > 0,
        crate::text::no_ws(t),
{
}

/// Whether a `#WAVCMD` value is one that reading gives: a valid sound
/// index, and a pitch at most 127.
pub open spec fn wav_cmd_reads_back(p: WavCmdParams) -> bool {
    &&& index_text_ok(ascii_text(p.wav_index.0@))
    &&& (p.command == WavCmdKind::Pitch ==> p.value <= 127)
}

/// Writing a `#WAVCMD` value that reading gives and reading it back gives
/// the same value.
pub proof fn lemma_wav_cmd_roundtrip(p: WavCmdParams)
    requires
        wav_cmd_reads_back(p),
    ensures
        wav_cmd_of(
            wav_cmd_code(p.command) + seq![' '] + ascii_text(p.wav_index.0@) + seq![' '] + dec(p.value as nat),
        ) == Some(p),
{
    let code = wav_cmd_code(p.command);
    let it = ascii_text(p.wav_index.0@);
    let dv = dec(p.value as nat);
    crate::text::lemma_dec_plain(p.value as nat);
    lemma_index_text_plain(it);
    crate::text::lemma_ws_tokens_sep(code + seq![' '] + it, dv);
    crate::text::lemma_ws_tokens_sep(code, it);
    crate::text::lemma_ws_tokens_word(code);
    crate::text::lemma_ws_tokens_word(it);
    crate::text::lemma_ws_tokens_word(dv);
    let t = ws_tokens(code + seq![' '] + it + seq![' '] + dv);
    assert(t =~= seq![code, it, dv]);
    crate::text::lemma_dec_parses(p.value as nat, 0, u32::MAX as int, false);
    crate::index::lemma_index_text_roundtrip(p.wav_index.0);
}

/// The words of the text of numbers are the texts of the numbers.
pub proof fn lemma_numbers_tokens(v: Seq<int>)
    ensures
        ws_tokens(numbers_text(v)).len() == v.len(),
        forall|i: int| 0 <= i < v.len() ==> #[trigger] ws_tokens(numbers_text(v))[i] == sdec(v[i]),
    decreases v.len(),
{
    if v.len() == 0 {
        assert(ws_tokens(Seq::<char>::empty()) =~= Seq::<Seq<char>>::empty());
    } else if v.len() == 1 {
        crate::text::lemma_sdec_plain(v[0]);
        crate::text::lemma_ws_tokens_word(sdec(v[0]));
    } else {
        lemma_numbers_tokens(v.drop_last());
        crate::text::lemma_sdec_plain(v.last());
        crate::text::lemma_ws_tokens_sep(numbers_text(v.drop_last()), sdec(v.last()));
        crate::text::lemma_ws_tokens_word(sdec(v.last()));
        let t = ws_tokens(numbers_text(v));
        assert forall|i: int| 0 <= i < v.len() implies #[trigger] t[i] == sdec(v[i]) by {
            if i < v.len() - 1 {
                assert(v.drop_last()[i] == v[i]);
            }
        }
    }
}

/// Seven `i32` numbers, written and read back, are the same numbers.
pub proof fn lemma_seven_ints_roundtrip(v: Seq<int>)
    requires
        v.len() == 7,
        forall|i: int| 0 <= i < 7 ==> i32::MIN <= #[trigger] v[i] <= i32::MAX,
    ensures
        seven_ints_of(numbers_text(v)) == Some(v),
{
    lemma_numbers_tokens(v);
    let t = ws_tokens(numbers_text(v));
    assert forall|i: int| 0 <= i < 7 implies #[trigger] parse_int(t[i], true, i32::MIN as int, i32::MAX as int) == Some(v[i]) by {
        crate::text::lemma_sdec_parses(v[i], i32::MIN as int, i32::MAX as int);
    }
    assert(Seq::new(7, |i: int| or_zero(parse_int(t[i], true, i32::MIN as int, i32::MAX as int))) =~= v);
}

/// Writing a `#BGA` value and reading it back gives the same value.
pub proof fn lemma_bga_roundtrip(p: BgaParams)
    ensures
        bga_of(numbers_text(seq![p.bmp_index as int, p.x1 as int, p.y1 as int, p.x2 as int, p.y2 as int, p.dx as int, p.dy as int])) == Some(p),
{
    let v = seq![p.bmp_index as int, p.x1 as int, p.y1 as int, p.x2 as int, p.y2 as int, p.dx as int, p.dy as int];
    lemma_seven_ints_roundtrip(v);
}

/// Writing a `#@BGA` value and reading it back gives the same value.
pub proof fn lemma_at_bga_roundtrip(p: AtBgaParams)
    ensures
        at_bga_of(numbers_text(seq![p.bmp_index as int, p.sx as int, p.sy as int, p.w as int, p.h as int, p.dx as int, p.dy as int])) == Some(p),
{
    let v = seq![p.bmp_index as int, p.sx as int, p.sy as int, p.w as int, p.h as int, p.dx as int, p.dy as int];
    lemma_seven_ints_roundtrip(v);
}

/// Writing a `#SWBGA` value and reading it back gives the same value, for a
/// pattern without whitespace at either end.
pub proof fn lemma_sw_bga_roundtrip(p: SwBgaParams<Seq<char>>)
    requires
        trim(p.pattern) == p.pattern,
    ensures
        sw_bga_of(sw_bga_text(p)) == Some(p),
{
    let d1 = dec(p.fr as nat);
    let d2 = dec(p.time as nat);
    let d3 = dec(p.line as nat);
    let f = seq![if p.looping { '1' } else { '0' }];
    let c = argb_text(p.a, p.r, p.g, p.b);
    crate::text::lemma_dec_plain(p.fr as nat);
    crate::text::lemma_dec_plain(p.time as nat);
    crate::text::lemma_dec_plain(p.line as nat);
    lemma_argb_text_plain(p.a, p.r, p.g, p.b);
    lemma_argb_roundtrip(p.a, p.r, p.g, p.b);
    let pre = d1 + seq![':'] + (d2 + seq![':'] + (d3 + seq![':'] + (f + seq![':'] + c)));
    let s = sw_bga_text(p);
    assert(s =~= pre + seq![' '] + p.pattern);
    assert(crate::text::lacks(pre, ' '));
    crate::text::lemma_first_index_at(pre, p.pattern, ' ');
    assert(s.take(pre.len() as int) =~= pre);
    assert(s.skip(pre.len() + 1int) =~= p.pattern);
    crate::text::lemma_split_on_sep(d1, d2 + seq![':'] + (d3 + seq![':'] + (f + seq![':'] + c)), ':');
    crate::text::lemma_split_on_sep(d2, d3 + seq![':'] + (f + seq![':'] + c), ':');
    crate::text::lemma_split_on_sep(d3, f + seq![':'] + c, ':');
    crate::text::lemma_split_on_sep(f, c, ':');
    crate::text::lemma_split_on_none(c, ':');
    assert(split_on(pre, ':') =~= seq![d1, d2, d3, f, c]);
    crate::text::lemma_dec_parses(p.fr as nat, 0, u32::MAX as int, false);
    crate::text::lemma_dec_parses(p.time as nat, 0, u32::MAX as int, false);
    crate::text::lemma_dec_parses(p.line as nat, 0, 255, false);
    assert(seq!['0'] != seq!['1']) by {
        assert(seq!['0'][0] != seq!['1'][0]);
    }
}

/// The measure text, three digits, reads back as the measure.
proof fn lemma_pad3_parses(n: nat)
    requires
        n <= 999,
    ensures
        parse_int(pad3(n), false, 0, 65535) == Some(n as int),
        crate::text::lacks(pad3(n), ' '),
        crate::text::lacks(pad3(n), '.'),
{
    crate::text::lemma_dec_plain(n);
    crate::text::lemma_dec_parses(n, 0, 65535, false);
    let d = dec(n);
    if n < 10 {
        crate::text::lemma_digits_value_zero_front(d);
        crate::text::lemma_digits_value_zero_front(seq!['0'] + d);
        assert(pad3(n) =~= seq!['0'] + (seq!['0'] + d));
    } else if n < 100 {
        crate::text::lemma_digits_value_zero_front(d);
    }
    let t = pad3(n);
    assert(crate::text::all_digits(t));
    assert(t[0] != '-' && t[0] != '+');
}

/// Whether an `#STP` value is one that reading gives: a measure and a
/// position up to 999 and a duration that is a float literal without
/// whitespace at either end.
pub open spec fn stp_reads_back(p: StpParams<Seq<char>>) -> bool {
    &&& p.measure <= 999
    &&& p.position <= 999
    &&& is_float_literal(p.duration_ms)
    &&& trim(p.duration_ms) == p.duration_ms
}

/// Writing a `#STP` value that reading gives and reading it back gives the
/// same value.
pub proof fn lemma_stp_roundtrip(p: StpParams<Seq<char>>)
    requires
        stp_reads_back(p),
    ensures
        stp_of(stp_text(p)) == Some(p),
{
    lemma_pad3_parses(p.measure as nat);
    let m = pad3(p.measure as nat);
    let dp = dec(p.position as nat);
    crate::text::lemma_dec_plain(p.position as nat);
    let opt = if p.position == 0 { Seq::<char>::empty() } else { seq!['.'] + dp };
    let pos = m + opt;
    let s = stp_text(p);
    assert(s =~= pos + seq![' '] + p.duration_ms);
    assert(crate::text::lacks(pos, ' '));
    crate::text::lemma_first_index_at(pos, p.duration_ms, ' ');
    assert(s.take(pos.len() as int) =~= pos);
    assert(s.skip(pos.len() + 1int) =~= p.duration_ms);
    crate::text::lemma_dec_parses(p.position as nat, 0, 65535, false);
    if p.position == 0 {
        assert(pos =~= m);
        crate::text::lemma_first_index_none(m, '.');
        crate::text::lemma_dec_parses(0, 0, 65535, false);
        assert(dec(0) =~= seq!['0']);
    } else {
        assert(pos =~= m + seq!['.'] + dp);
        crate::text::lemma_first_index_at(m, dp, '.');
        assert(pos.take(m.len() as int) =~= m);
        assert(pos.skip(m.len() + 1int) =~= dp);
    }
}

/// `word_end` stops at the first ASCII whitespace.
proof fn lemma_word_end_is(s: Seq<char>, i: int, e: int)
    requires
        0 <= i <= e <= s.len(),
        forall|j: int| i <= j < e ==> !is_ascii_ws(#[trigger] s[j]),
        e < s.len() ==> is_ascii_ws(s[e]),
    ensures
        word_end(s, i) == e,
    decreases e - i,
{
    if i < e {
        lemma_word_end_is(s, i + 1, e);
    }
}

/// A number written after a space, and followed by one, is read whole.
proof fn lemma_number_at(s: Seq<char>, pos: int, x: int)
    requires
        0 <= pos,
        pos + 1 + sdec(x).len() < s.len(),
        s[pos] == ' ',
        s.subrange(pos + 1, pos + 1 + sdec(x).len()) == sdec(x),
        s[pos + 1 + sdec(x).len()] == ' ',
    ensures
        skip_ascii_ws(s, pos) == pos + 1,
        word_end(s, pos + 1) == pos + 1 + sdec(x).len(),
        s.subrange(pos + 1, word_end(s, pos + 1)) == sdec(x),
{
    crate::text::lemma_sdec_plain(x);
    let l = sdec(x).len() as int;
    assert(s[pos + 1] == sdec(x)[0]);
    assert(skip_ascii_ws(s, pos + 1) == pos + 1);
    assert forall|j: int| pos + 1 <= j < pos + 1 + l implies !is_ascii_ws(#[trigger] s[j]) by {
        assert(s[j] == sdec(x)[j - pos - 1]);
    }
    lemma_word_end_is(s, pos + 1, pos + 1 + l);
}

/// One step of reading the numbers of an `#EXWAV` value.
proof fn lemma_exwav_numbers_step(
    s: Seq<char>,
    flags: Seq<char>,
    pos: int,
    acc: ExWavParams<Seq<char>>,
    x: int,
)
    requires
        flags.len() > 0,
        0 <= pos,
        pos + 1 + sdec(x).len() < s.len(),
        s[pos] == ' ',
        s.subrange(pos + 1, pos + 1 + sdec(x).len()) == sdec(x),
        s[pos + 1 + sdec(x).len()] == ' ',
        i32::MIN <= x <= i32::MAX,
    ensures
        flags[0] == 'p' && -10000 <= x <= 10000 ==> exwav_numbers(s, flags, pos, acc)
            == exwav_numbers(
            s,
            flags.drop_first(),
            pos + 1 + sdec(x).len(),
            ExWavParams { pan: Some(x as i32), volume: acc.volume, frequency: acc.frequency, filename: acc.filename },
        ),
        flags[0] == 'v' && -10000 <= x <= 0 ==> exwav_numbers(s, flags, pos, acc)
            == exwav_numbers(
            s,
            flags.drop_first(),
            pos + 1 + sdec(x).len(),
            ExWavParams { pan: acc.pan, volume: Some(x as i32), frequency: acc.frequency, filename: acc.filename },
        ),
        flags[0] == 'f' && 100 <= x <= 100000 ==> exwav_numbers(s, flags, pos, acc)
            == exwav_numbers(
            s,
            flags.drop_first(),
            pos + 1 + sdec(x).len(),
            ExWavParams { pan: acc.pan, volume: acc.volume, frequency: Some(x as u32), filename: acc.filename },
        ),
{
    lemma_number_at(s, pos, x);
    crate::text::lemma_sdec_parses(x, i64::MIN as int, i64::MAX as int);
}

/// The value of the `#EXWAV` field that flag `c` announces, set to `x`.
pub open spec fn exwav_set(acc: ExWavParams<Seq<char>>, c: char, x: int) -> ExWavParams<Seq<char>> {
    if c == 'p' {
        ExWavParams { pan: Some(x as i32), volume: acc.volume, frequency: acc.frequency, filename: acc.filename }
    } else if c == 'v' {
        ExWavParams { pan: acc.pan, volume: Some(x as i32), frequency: acc.frequency, filename: acc.filename }
    } else {
        ExWavParams { pan: acc.pan, volume: acc.volume, frequency: Some(x as u32), filename: acc.filename }
    }
}

/// Whether `x` is in the range of the number that flag `c` announces.
pub open spec fn exwav_in_range(c: char, x: int) -> bool {
    if c == 'p' {
        -10000 <= x <= 10000
    } else if c == 'v' {
        -10000 <= x <= 0
    } else {
        c == 'f' && 100 <= x <= 100000
    }
}

/// Reading one optional number of an `#EXWAV` value.
proof fn lemma_exwav_opt_step(
    s: Seq<char>,
    fl: Seq<char>,
    pos: int,
    acc: ExWavParams<Seq<char>>,
    o: Option<int>,
    c: char,
)
    requires
        o matches Some(x) ==> fl.len() > 0 && fl[0] == c && exwav_in_range(c, x),
        0 <= pos,
        pos + opt_number_text(o).len() < s.len(),
        s.subrange(pos, pos + opt_number_text(o).len()) == opt_number_text(o),
        s[pos + opt_number_text(o).len()] == ' ',
    ensures
        exwav_numbers(s, fl, pos, acc) == exwav_numbers(
            s,
            if o is Some { fl.drop_first() } else { fl },
            pos + opt_number_text(o).len(),
            match o {
                Some(x) => exwav_set(acc, c, x),
                None => acc,
            },
        ),
{
    if let Some(x) = o {
        let n = opt_number_text(o);
        assert(n =~= seq![' '] + sdec(x));
        assert(s[pos] == n[0]);
        assert(s.subrange(pos + 1, pos + 1 + sdec(x).len()) =~= sdec(x)) by {
            assert forall|j: int| 0 <= j < sdec(x).len() implies #[trigger] s.subrange(pos + 1, pos + 1 + sdec(x).len())[j] == sdec(x)[j] by {
                assert(s.subrange(pos, pos + n.len())[j + 1] == n[j + 1]);
            }
        }
        lemma_exwav_numbers_step(s, fl, pos, acc, x);
    }
}

/// The first word of an `#EXWAV` text with numbers is its flag word.
proof fn lemma_exwav_flag_token(flags: Seq<char>, ns: Seq<char>, name: Seq<char>)
    requires
        is_flag_word(flags),
        ns.len() > 0,
        ns[0] == ' ',
    ensures
        ws_tokens(flags + ns + seq![' '] + name).len() > 0,
        ws_tokens(flags + ns + seq![' '] + name)[0] == flags,
{
    let rest = ns.drop_first() + seq![' '] + name;
    assert(flags + ns + seq![' '] + name =~= flags + seq![' '] + rest);
    assert(crate::text::no_ws(flags));
    crate::text::lemma_ws_tokens_sep(flags, rest);
    crate::text::lemma_ws_tokens_word(flags);
}

/// The flag word of an `#EXWAV` value: `p`, `v`, `f` for the numbers given.
pub open spec fn exwav_flags(p: ExWavParams<Seq<char>>) -> Seq<char> {
    (if p.pan is Some {
        seq!['p']
    } else {
        Seq::empty()
    }) + (if p.volume is Some {
        seq!['v']
    } else {
        Seq::empty()
    }) + (if p.frequency is Some {
        seq!['f']
    } else {
        Seq::empty()
    })
}

/// The numbers of an `#EXWAV` text are read back as written.
proof fn lemma_exwav_read_numbers(s: Seq<char>, p: ExWavParams<Seq<char>>)
    requires
        p.pan matches Some(v) ==> -10000 <= v <= 10000,
        p.volume matches Some(v) ==> -10000 <= v <= 0,
        p.frequency matches Some(v) ==> 100 <= v <= 100000,
        s == exwav_flags(p) + opt_number_text(opt_i32(p.pan)) + opt_number_text(opt_i32(p.volume))
            + opt_number_text(opt_u32(p.frequency)) + seq![' '] + p.filename,
    ensures
        exwav_numbers(
            s,
            exwav_flags(p),
            exwav_flags(p).len() as int,
            ExWavParams { pan: None, volume: None, frequency: None, filename: Seq::<char>::empty() },
        ) == Some((
            ExWavParams { pan: p.pan, volume: p.volume, frequency: p.frequency, filename: Seq::<char>::empty() },
            (exwav_flags(p).len() + opt_number_text(opt_i32(p.pan)).len() + opt_number_text(opt_i32(p.volume)).len()
                + opt_number_text(opt_u32(p.frequency)).len()) as int,
        )),
{
    let flags = exwav_flags(p);
    let fv = if p.volume is Some { seq!['v'] } else { Seq::<char>::empty() };
    let ff = if p.frequency is Some { seq!['f'] } else { Seq::<char>::empty() };
    let n1 = opt_number_text(opt_i32(p.pan));
    let n2 = opt_number_text(opt_i32(p.volume));
    let n3 = opt_number_text(opt_u32(p.frequency));
    let none = ExWavParams { pan: None, volume: None, frequency: None, filename: Seq::<char>::empty() };
    let pos0 = flags.len() as int;
    let pos1 = pos0 + n1.len();
    let pos2 = pos1 + n2.len();
    let pos3 = pos2 + n3.len();
    assert(s.subrange(pos0, pos1) =~= n1);
    assert(s.subrange(pos1, pos2) =~= n2);
    assert(s.subrange(pos2, pos3) =~= n3);
    assert(s[pos1] == if n2.len() > 0 { n2[0] } else if n3.len() > 0 { n3[0] } else { ' ' });
    assert(s[pos2] == if n3.len() > 0 { n3[0] } else { ' ' });
    assert(s[pos3] == ' ');
    let f1 = fv + ff;
    let acc1 = ExWavParams { pan: p.pan, volume: None, frequency: None, filename: Seq::<char>::empty() };
    lemma_exwav_opt_step(s, flags, pos0, none, opt_i32(p.pan), 'p');
    assert((if opt_i32(p.pan) is Some { flags.drop_first() } else { flags }) =~= f1);
    let acc2 = ExWavParams { pan: p.pan, volume: p.volume, frequency: None, filename: Seq::<char>::empty() };
    lemma_exwav_opt_step(s, f1, pos1, acc1, opt_i32(p.volume), 'v');
    assert((if opt_i32(p.volume) is Some { f1.drop_first() } else { f1 }) =~= ff);
    let acc3 = ExWavParams { pan: p.pan, volume: p.volume, frequency: p.frequency, filename: Seq::<char>::empty() };
    lemma_exwav_opt_step(s, ff, pos2, acc2, opt_u32(p.frequency), 'f');
    assert((if opt_u32(p.frequency) is Some { ff.drop_first() } else { ff }) =~= Seq::<char>::empty());
}

/// Whether an `#EXWAV` value is one that reading gives: numbers in their
/// ranges and, without numbers, a trimmed file name whose first word is no
/// flag word; after numbers, a non-empty file name that starts without
/// ASCII whitespace.
pub open spec fn exwav_reads_back(p: ExWavParams<Seq<char>>) -> bool {
    &&& (p.pan matches Some(v) ==> -10000 <= v <= 10000)
    &&& (p.volume matches Some(v) ==> -10000 <= v <= 0)
    &&& (p.frequency matches Some(v) ==> 100 <= v <= 100000)
    &&& (p.pan is None && p.volume is None && p.frequency is None ==> {
        &&& trim(p.filename) == p.filename
        &&& ws_tokens(p.filename).len() > 0
        &&& !is_flag_word(ws_tokens(p.filename)[0])
    })
    &&& (p.pan is Some || p.volume is Some || p.frequency is Some ==> {
        &&& p.filename.len() > 0
        &&& !is_ascii_ws(p.filename[0])
    })
}

/// Writing an `#EXWAV` value that reading gives and reading it back gives
/// the same value.
pub proof fn lemma_exwav_roundtrip(p: ExWavParams<Seq<char>>)
    requires
        exwav_reads_back(p),
    ensures
        exwav_of(exwav_text(p)) == Some(p),
{
    let flags = exwav_flags(p);
    let s = exwav_text(p);
    if p.pan is None && p.volume is None && p.frequency is None {
        assert(s == p.filename);
    } else {
        let n1 = opt_number_text(opt_i32(p.pan));
        let n2 = opt_number_text(opt_i32(p.volume));
        let n3 = opt_number_text(opt_u32(p.frequency));
        let name = p.filename;
        let ns = n1 + n2 + n3;
        assert(flags.len() > 0);
        assert(s =~= flags + n1 + n2 + n3 + seq![' '] + name);
        assert(s =~= flags + ns + seq![' '] + name);
        assert(ns.len() > 0 && ns[0] == ' ');
        assert(is_flag_word(flags));
        lemma_exwav_flag_token(flags, ns, name);
        lemma_exwav_read_numbers(s, p);
        let pos3 = (flags.len() + ns.len()) as int;
        assert(s[pos3] == ' ');
        assert(s[pos3 + 1] == name[0]);
        assert(skip_ascii_ws(s, pos3 + 1) == pos3 + 1);
        assert(skip_ascii_ws(s, pos3) == pos3 + 1);
        assert(s.skip(pos3 + 1) =~= name);
    }
}

} // verus!
