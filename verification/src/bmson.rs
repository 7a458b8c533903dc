//! The bmson chart format: its data types, version detection, mode hints,
//! and the parts of the conversions between format versions that do not
//! involve floating-point values.
//!
//! Paths and other texts are held as `C` (`String` at run time); views
//! replace them by their characters.

pub mod v0;

use vstd::prelude::*;

use crate::text::{dec, ends_with, first_index, parse_int, starts_with, trim_start};

verus! {

// ---------------------------------------------------------------------------
// Mode hints
// ---------------------------------------------------------------------------

/// The key layout of a chart (`mode_hint`).
#[derive(Clone, Debug, PartialEq, Eq)]
#[non_exhaustive]
pub enum ModeHint<C = String> {
    /// `beat-5k`.
    Beat5k,
    /// `beat-7k` (the default).
    Beat7k,
    /// `beat-10k`.
    Beat10k,
    /// `beat-14k`.
    Beat14k,
    /// `popn-5k`.
    Popn5k,
    /// `popn-9k`.
    Popn9k,
    /// `dj-5k-only`.
    Dj5kOnly,
    /// `dj-ruby`.
    DjRuby,
    /// `dj-5k`.
    Dj5k,
    /// `dj-7k`.
    Dj7k,
    /// `dj-10k`.
    Dj10k,
    /// `dj-14k`.
    Dj14k,
    /// `dj-andromeda`.
    DjAndromeda,
    /// `generic-{n}keys`: `n` keys of a generic layout.
    Generic(u64),
    /// Any other text, kept as written.
    Other(C),
}

impl View for ModeHint<String> {
    type V = ModeHint<Seq<char>>;

    open spec fn view(&self) -> ModeHint<Seq<char>> {
        match self {
            ModeHint::Beat5k => ModeHint::Beat5k,
            ModeHint::Beat7k => ModeHint::Beat7k,
            ModeHint::Beat10k => ModeHint::Beat10k,
            ModeHint::Beat14k => ModeHint::Beat14k,
            ModeHint::Popn5k => ModeHint::Popn5k,
            ModeHint::Popn9k => ModeHint::Popn9k,
            ModeHint::Dj5kOnly => ModeHint::Dj5kOnly,
            ModeHint::DjRuby => ModeHint::DjRuby,
            ModeHint::Dj5k => ModeHint::Dj5k,
            ModeHint::Dj7k => ModeHint::Dj7k,
            ModeHint::Dj10k => ModeHint::Dj10k,
            ModeHint::Dj14k => ModeHint::Dj14k,
            ModeHint::DjAndromeda => ModeHint::DjAndromeda,
            ModeHint::Generic(n) => ModeHint::Generic(*n),
            ModeHint::Other(s) => ModeHint::Other(s@),
        }
    }
}

impl Default for ModeHint<String> {
    fn default() -> (r: Self)
        ensures
            r == ModeHint::<String>::Beat7k,
    {
        ModeHint::Beat7k
    }
}

/// The text of a standard mode hint.
pub open spec fn mode_hint_text(h: ModeHint<Seq<char>>) -> Seq<char> {
    match h {
        ModeHint::Beat5k => seq!['b', 'e', 'a', 't', '-', '5', 'k'],
        ModeHint::Beat7k => seq!['b', 'e', 'a', 't', '-', '7', 'k'],
        ModeHint::Beat10k => seq!['b', 'e', 'a', 't', '-', '1', '0', 'k'],
        ModeHint::Beat14k => seq!['b', 'e', 'a', 't', '-', '1', '4', 'k'],
        ModeHint::Popn5k => seq!['p', 'o', 'p', 'n', '-', '5', 'k'],
        ModeHint::Popn9k => seq!['p', 'o', 'p', 'n', '-', '9', 'k'],
        ModeHint::Dj5kOnly => seq!['d', 'j', '-', '5', 'k', '-', 'o', 'n', 'l', 'y'],
        ModeHint::DjRuby => seq!['d', 'j', '-', 'r', 'u', 'b', 'y'],
        ModeHint::Dj5k => seq!['d', 'j', '-', '5', 'k'],
        ModeHint::Dj7k => seq!['d', 'j', '-', '7', 'k'],
        ModeHint::Dj10k => seq!['d', 'j', '-', '1', '0', 'k'],
        ModeHint::Dj14k => seq!['d', 'j', '-', '1', '4', 'k'],
        ModeHint::DjAndromeda => seq!['d', 'j', '-', 'a', 'n', 'd', 'r', 'o', 'm', 'e', 'd', 'a'],
        ModeHint::Generic(n) => seq!['g', 'e', 'n', 'e', 'r', 'i', 'c', '-'] + dec(n as nat) + seq!['k', 'e', 'y', 's'],
        ModeHint::Other(s) => s,
    }
}

/// The mode hint that a text names: the standard names, `generic-{n}keys`
/// (or the older `generic-{n}k`) with `n` a `u64`, anything else kept as
/// `Other`.
pub open spec fn mode_hint_of(s: Seq<char>) -> ModeHint<Seq<char>> {
    if s == seq!['b', 'e', 'a', 't', '-', '5', 'k'] {
        ModeHint::Beat5k
    } else if s == seq!['b', 'e', 'a', 't', '-', '7', 'k'] {
        ModeHint::Beat7k
    } else if s == seq!['b', 'e', 'a', 't', '-', '1', '0', 'k'] {
        ModeHint::Beat10k
    } else if s == seq!['b', 'e', 'a', 't', '-', '1', '4', 'k'] {
        ModeHint::Beat14k
    } else if s == seq!['p', 'o', 'p', 'n', '-', '5', 'k'] {
        ModeHint::Popn5k
    } else if s == seq!['p', 'o', 'p', 'n', '-', '9', 'k'] {
        ModeHint::Popn9k
    } else if s == seq!['d', 'j', '-', '5', 'k', '-', 'o', 'n', 'l', 'y'] {
        ModeHint::Dj5kOnly
    } else if s == seq!['d', 'j', '-', 'r', 'u', 'b', 'y'] {
        ModeHint::DjRuby
    } else if s == seq!['d', 'j', '-', '5', 'k'] {
        ModeHint::Dj5k
    } else if s == seq!['d', 'j', '-', '7', 'k'] {
        ModeHint::Dj7k
    } else if s == seq!['d', 'j', '-', '1', '0', 'k'] {
        ModeHint::Dj10k
    } else if s == seq!['d', 'j', '-', '1', '4', 'k'] {
        ModeHint::Dj14k
    } else if s == seq!['d', 'j', '-', 'a', 'n', 'd', 'r', 'o', 'm', 'e', 'd', 'a'] {
        ModeHint::DjAndromeda
    } else if starts_with(s, seq!['g', 'e', 'n', 'e', 'r', 'i', 'c', '-']) && ends_with(s, seq!['k', 'e', 'y', 's']) && s.len() >= 12 {
        match parse_int(s.subrange(8, s.len() - 4), false, 0, u64::MAX as int) {
            Some(n) => ModeHint::Generic(n as u64),
            None => ModeHint::Other(s),
        }
    } else if starts_with(s, seq!['g', 'e', 'n', 'e', 'r', 'i', 'c', '-']) && ends_with(s, seq!['k']) && s.len() >= 9 {
        match parse_int(s.subrange(8, s.len() - 1), false, 0, u64::MAX as int) {
            Some(n) => ModeHint::Generic(n as u64),
            None => ModeHint::Other(s),
        }
    } else {
        ModeHint::Other(s)
    }
}

impl ModeHint<String> {
    /// Reads a mode hint (see [`mode_hint_of`]); every text reads as one.
    pub fn parse_str(s: &str) -> (r: Self)
        ensures
            r@ == mode_hint_of(s@),
    {
        let cs = crate::text::chars_of(s);
        let n = cs.len();
        proof {
            assert(cs@.subrange(0, n as int) =~= s@);
        }
        if crate::text::range_eq(&cs, 0, n, &['b', 'e', 'a', 't', '-', '5', 'k']) {
            return ModeHint::Beat5k;
        }
        if crate::text::range_eq(&cs, 0, n, &['b', 'e', 'a', 't', '-', '7', 'k']) {
            return ModeHint::Beat7k;
        }
        if crate::text::range_eq(&cs, 0, n, &['b', 'e', 'a', 't', '-', '1', '0', 'k']) {
            return ModeHint::Beat10k;
        }
        if crate::text::range_eq(&cs, 0, n, &['b', 'e', 'a', 't', '-', '1', '4', 'k']) {
            return ModeHint::Beat14k;
        }
        if crate::text::range_eq(&cs, 0, n, &['p', 'o', 'p', 'n', '-', '5', 'k']) {
            return ModeHint::Popn5k;
        }
        if crate::text::range_eq(&cs, 0, n, &['p', 'o', 'p', 'n', '-', '9', 'k']) {
            return ModeHint::Popn9k;
        }
        if crate::text::range_eq(&cs, 0, n, &['d', 'j', '-', '5', 'k', '-', 'o', 'n', 'l', 'y']) {
            return ModeHint::Dj5kOnly;
        }
        if crate::text::range_eq(&cs, 0, n, &['d', 'j', '-', 'r', 'u', 'b', 'y']) {
            return ModeHint::DjRuby;
        }
        if crate::text::range_eq(&cs, 0, n, &['d', 'j', '-', '5', 'k']) {
            return ModeHint::Dj5k;
        }
        if crate::text::range_eq(&cs, 0, n, &['d', 'j', '-', '7', 'k']) {
            return ModeHint::Dj7k;
        }
        if crate::text::range_eq(&cs, 0, n, &['d', 'j', '-', '1', '0', 'k']) {
            return ModeHint::Dj10k;
        }
        if crate::text::range_eq(&cs, 0, n, &['d', 'j', '-', '1', '4', 'k']) {
            return ModeHint::Dj14k;
        }
        if crate::text::range_eq(&cs, 0, n, &['d', 'j', '-', 'a', 'n', 'd', 'r', 'o', 'm', 'e', 'd', 'a']) {
            return ModeHint::DjAndromeda;
        }
        let is_generic = n >= 8 && crate::text::range_eq(&cs, 0, 8, &['g', 'e', 'n', 'e', 'r', 'i', 'c', '-']);
        proof {
            assert(cs@.take(8) =~= cs@.subrange(0, 8));
        }
        if is_generic && n >= 12 && crate::text::range_eq(&cs, n - 4, n, &['k', 'e', 'y', 's']) {
            proof {
                assert(cs@.skip(n - 4) =~= cs@.subrange(n - 4, n as int));
            }
            return match crate::text::parse_unsigned(&cs, 8, n - 4, u64::MAX) {
                Some(v) => ModeHint::Generic(v),
                None => ModeHint::Other(crate::text::string_from(&cs)),
            };
        }
        proof {
            if n >= 4 {
                assert(cs@.skip(n - 4) =~= cs@.subrange(n - 4, n as int));
            }
        }
        if is_generic && n >= 9 && cs[n - 1] == 'k' {
            proof {
                assert(cs@.skip(n - 1) =~= seq!['k']);
            }
            return match crate::text::parse_unsigned(&cs, 8, n - 1, u64::MAX) {
                Some(v) => ModeHint::Generic(v),
                None => ModeHint::Other(crate::text::string_from(&cs)),
            };
        }
        proof {
            if n >= 9 && cs@[n - 1] != 'k' {
                assert(cs@.skip(n - 1)[0] != seq!['k'][0]);
            }
        }
        ModeHint::Other(crate::text::string_from(&cs))
    }

    /// The hint's text: its standard name, `generic-{n}keys`, or the kept
    /// text of `Other`.
    pub fn to_string(&self) -> (r: String)
        ensures
            r@ == mode_hint_text(self@),
    {
        let r = match self {
            ModeHint::Beat5k => crate::text::string_from(&['b', 'e', 'a', 't', '-', '5', 'k']),
            ModeHint::Beat7k => crate::text::string_from(&['b', 'e', 'a', 't', '-', '7', 'k']),
            ModeHint::Beat10k => crate::text::string_from(&['b', 'e', 'a', 't', '-', '1', '0', 'k']),
            ModeHint::Beat14k => crate::text::string_from(&['b', 'e', 'a', 't', '-', '1', '4', 'k']),
            ModeHint::Popn5k => crate::text::string_from(&['p', 'o', 'p', 'n', '-', '5', 'k']),
            ModeHint::Popn9k => crate::text::string_from(&['p', 'o', 'p', 'n', '-', '9', 'k']),
            ModeHint::Dj5kOnly => crate::text::string_from(&['d', 'j', '-', '5', 'k', '-', 'o', 'n', 'l', 'y']),
            ModeHint::DjRuby => crate::text::string_from(&['d', 'j', '-', 'r', 'u', 'b', 'y']),
            ModeHint::Dj5k => crate::text::string_from(&['d', 'j', '-', '5', 'k']),
            ModeHint::Dj7k => crate::text::string_from(&['d', 'j', '-', '7', 'k']),
            ModeHint::Dj10k => crate::text::string_from(&['d', 'j', '-', '1', '0', 'k']),
            ModeHint::Dj14k => crate::text::string_from(&['d', 'j', '-', '1', '4', 'k']),
            ModeHint::DjAndromeda => crate::text::string_from(&['d', 'j', '-', 'a', 'n', 'd', 'r', 'o', 'm', 'e', 'd', 'a']),
            ModeHint::Generic(n) => {
                let mut v: Vec<char> = Vec::new();
                crate::text::extend_chars(&mut v, &['g', 'e', 'n', 'e', 'r', 'i', 'c', '-']);
                let d = crate::text::fmt_u64(*n);
                crate::text::extend_chars(&mut v, &d);
                crate::text::extend_chars(&mut v, &['k', 'e', 'y', 's']);
                crate::text::string_from(&v)
            },
            ModeHint::Other(s) => s.clone(),
        };
        r
    }
}

/// Writing a standard or generic mode hint and reading it back gives the
/// same hint.
pub proof fn lemma_mode_hint_roundtrip(h: ModeHint<Seq<char>>)
    requires
        !(h is Other),
    ensures
        mode_hint_of(mode_hint_text(h)) == h,
{
    match h {
        ModeHint::Beat5k => {
        },
        ModeHint::Beat7k => {
            assert(seq!['b', 'e', 'a', 't', '-', '7', 'k'][5] != seq!['b', 'e', 'a', 't', '-', '5', 'k'][5]);
        },
        ModeHint::Beat10k => {
        },
        ModeHint::Beat14k => {
            assert(seq!['b', 'e', 'a', 't', '-', '1', '4', 'k'][6] != seq!['b', 'e', 'a', 't', '-', '1', '0', 'k'][6]);
        },
        ModeHint::Popn5k => {
            assert(seq!['p', 'o', 'p', 'n', '-', '5', 'k'][0] != seq!['b', 'e', 'a', 't', '-', '5', 'k'][0]);
            assert(seq!['p', 'o', 'p', 'n', '-', '5', 'k'][0] != seq!['b', 'e', 'a', 't', '-', '7', 'k'][0]);
        },
        ModeHint::Popn9k => {
            assert(seq!['p', 'o', 'p', 'n', '-', '9', 'k'][0] != seq!['b', 'e', 'a', 't', '-', '5', 'k'][0]);
            assert(seq!['p', 'o', 'p', 'n', '-', '9', 'k'][0] != seq!['b', 'e', 'a', 't', '-', '7', 'k'][0]);
            assert(seq!['p', 'o', 'p', 'n', '-', '9', 'k'][5] != seq!['p', 'o', 'p', 'n', '-', '5', 'k'][5]);
        },
        ModeHint::Dj5kOnly => {
        },
        ModeHint::DjRuby => {
            assert(seq!['d', 'j', '-', 'r', 'u', 'b', 'y'][0] != seq!['b', 'e', 'a', 't', '-', '5', 'k'][0]);
            assert(seq!['d', 'j', '-', 'r', 'u', 'b', 'y'][0] != seq!['b', 'e', 'a', 't', '-', '7', 'k'][0]);
            assert(seq!['d', 'j', '-', 'r', 'u', 'b', 'y'][0] != seq!['p', 'o', 'p', 'n', '-', '5', 'k'][0]);
            assert(seq!['d', 'j', '-', 'r', 'u', 'b', 'y'][0] != seq!['p', 'o', 'p', 'n', '-', '9', 'k'][0]);
        },
        ModeHint::Dj5k => {
        },
        ModeHint::Dj7k => {
            assert(seq!['d', 'j', '-', '7', 'k'][3] != seq!['d', 'j', '-', '5', 'k'][3]);
        },
        ModeHint::Dj10k => {
        },
        ModeHint::Dj14k => {
            assert(seq!['d', 'j', '-', '1', '4', 'k'][4] != seq!['d', 'j', '-', '1', '0', 'k'][4]);
        },
        ModeHint::DjAndromeda => {
        },
        ModeHint::Generic(n) => {
            lemma_generic_text(n);
        },
        ModeHint::Other(_) => {},
    }
}

proof fn lemma_generic_text(n: u64)
    ensures
        mode_hint_of(mode_hint_text(ModeHint::Generic(n))) == ModeHint::<Seq<char>>::Generic(n),
{
    let d = dec(n as nat);
    crate::text::lemma_dec(n as nat);
    crate::text::lemma_dec_parses(n as nat, 0, u64::MAX as int, false);
    let t = mode_hint_text(ModeHint::Generic(n));
    let g = seq!['g', 'e', 'n', 'e', 'r', 'i', 'c', '-'];
    let k = seq!['k', 'e', 'y', 's'];
    assert(t == g + d + k);
    assert(t[0] == 'g');
    assert(t.take(8) =~= g);
    assert(t.skip(t.len() - 4) =~= k);
    assert(t.subrange(8, t.len() - 4) =~= d);
    assert(seq!['b', 'e', 'a', 't', '-', '5', 'k'][0] != t[0]);
    assert(seq!['b', 'e', 'a', 't', '-', '7', 'k'][0] != t[0]);
    assert(seq!['b', 'e', 'a', 't', '-', '1', '0', 'k'][0] != t[0]);
    assert(seq!['b', 'e', 'a', 't', '-', '1', '4', 'k'][0] != t[0]);
    assert(seq!['p', 'o', 'p', 'n', '-', '5', 'k'][0] != t[0]);
    assert(seq!['p', 'o', 'p', 'n', '-', '9', 'k'][0] != t[0]);
    assert(seq!['d', 'j', '-', '5', 'k', '-', 'o', 'n', 'l', 'y'][0] != t[0]);
    assert(seq!['d', 'j', '-', 'r', 'u', 'b', 'y'][0] != t[0]);
    assert(seq!['d', 'j', '-', '5', 'k'][0] != t[0]);
    assert(seq!['d', 'j', '-', '7', 'k'][0] != t[0]);
    assert(seq!['d', 'j', '-', '1', '0', 'k'][0] != t[0]);
    assert(seq!['d', 'j', '-', '1', '4', 'k'][0] != t[0]);
    assert(seq!['d', 'j', '-', 'a', 'n', 'd', 'r', 'o', 'm', 'e', 'd', 'a'][0] != t[0]);
}

impl core::str::FromStr for ModeHint<String> {
    type Err = core::convert::Infallible;

    fn from_str(s: &str) -> (r: Result<Self, Self::Err>)
        ensures
            r matches Ok(h) && h@ == mode_hint_of(s@),
    {
        Ok(ModeHint::parse_str(s))
    }
}

// ---------------------------------------------------------------------------
// Long-note hints
// ---------------------------------------------------------------------------

/// How long notes end (`ln_type_hint`).
#[derive(Clone, Debug, PartialEq, Eq, Copy, Structural)]
#[non_exhaustive]
pub enum LnType {
    /// Long note: releasing is not judged (the default).
    Ln,
    /// Charge note: the release is judged.
    Cn,
    /// Hell charge note: holding is judged continuously.
    Hcn,
}

impl Default for LnType {
    fn default() -> (r: Self)
        ensures
            r == LnType::Ln,
    {
        LnType::Ln
    }
}

/// How long notes are judged (`ln_judge_hint`).
#[derive(Clone, Debug, PartialEq, Eq, Copy, Structural)]
#[non_exhaustive]
pub enum LnJudge {
    /// Normal judging (the default).
    Normal,
    /// Judged by ticks.
    Ticks,
}

impl Default for LnJudge {
    fn default() -> (r: Self)
        ensures
            r == LnJudge::Normal,
    {
        LnJudge::Normal
    }
}

/// How long notes affect the gauge (`ln_life_hint`).
#[derive(Clone, Debug, PartialEq, Eq, Copy, Structural)]
#[non_exhaustive]
pub enum LnLife {
    /// Normal gauge effect (the default).
    Normal,
    /// Gauge effect by ticks.
    Ticks,
}

impl Default for LnLife {
    fn default() -> (r: Self)
        ensures
            r == LnLife::Normal,
    {
        LnLife::Normal
    }
}

/// The older numeric long-note mode: `1` LN, `2` CN, `3` HCN.
#[derive(Clone, Debug, PartialEq, Eq, Copy, Structural)]
#[non_exhaustive]
pub enum LnMode {
    /// `1`.
    Ln,
    /// `2`.
    Cn,
    /// `3`.
    Hcn,
}

/// The number of a long-note mode.
pub open spec fn ln_mode_number(m: LnMode) -> u64 {
    match m {
        LnMode::Ln => 1,
        LnMode::Cn => 2,
        LnMode::Hcn => 3,
    }
}

/// The long-note mode that a number names: 1, 2 or 3.
pub open spec fn ln_mode_of_number(n: u64) -> Option<LnMode> {
    if n == 1 {
        Some(LnMode::Ln)
    } else if n == 2 {
        Some(LnMode::Cn)
    } else if n == 3 {
        Some(LnMode::Hcn)
    } else {
        None
    }
}

impl LnMode {
    /// The mode's number, as it is written in bmson.
    pub fn to_u64(self) -> (r: u64)
        ensures
            r == ln_mode_number(self),
    {
        match self {
            LnMode::Ln => 1,
            LnMode::Cn => 2,
            LnMode::Hcn => 3,
        }
    }

    /// The mode that a number names; `None` unless it is 1, 2 or 3.
    pub fn from_u64(n: u64) -> (r: Option<Self>)
        ensures
            r == ln_mode_of_number(n),
    {
        if n == 1 {
            Some(LnMode::Ln)
        } else if n == 2 {
            Some(LnMode::Cn)
        } else if n == 3 {
            Some(LnMode::Hcn)
        } else {
            None
        }
    }
}

/// A long-note mode written as its number reads back as the same mode.
pub proof fn lemma_ln_mode_number_roundtrip(m: LnMode)
    ensures
        ln_mode_of_number(ln_mode_number(m)) == Some(m),
{
}

/// The `ln_type_hint` that an older long-note mode gives: only CN has its
/// own hint; LN is the default and HCN has none, so both give `None`.
pub open spec fn ln_mode_type_hint(m: LnMode) -> Option<LnType> {
    match m {
        LnMode::Cn => Some(LnType::Cn),
        _ => None,
    }
}

/// Maps an older long-note mode to an `ln_type_hint` (see
/// [`ln_mode_type_hint`]).
pub fn ln_mode_to_type_hint(lt: LnMode) -> (r: Option<LnType>)
    ensures
        r == ln_mode_type_hint(lt),
{
    match lt {
        LnMode::Cn => Some(LnType::Cn),
        LnMode::Hcn => None,
        LnMode::Ln => None,
    }
}

/// The long-note hint of a note from the older mode field: the same kind.
pub open spec fn ln_type_of_mode(m: LnMode) -> LnType {
    match m {
        LnMode::Ln => LnType::Ln,
        LnMode::Cn => LnType::Cn,
        LnMode::Hcn => LnType::Hcn,
    }
}

/// The older mode field of a note from its long-note hint: the same kind.
pub open spec fn ln_mode_of_type(t: LnType) -> LnMode {
    match t {
        LnType::Ln => LnMode::Ln,
        LnType::Cn => LnMode::Cn,
        LnType::Hcn => LnMode::Hcn,
    }
}

// ---------------------------------------------------------------------------
// Notes and events
// ---------------------------------------------------------------------------

/// A sound note.
#[derive(Clone, Debug, PartialEq, Eq)]
pub struct NoteEvent {
    /// Lane; 0 is background music.
    pub x: u64,
    /// Position in pulses.
    pub y: u64,
    /// Length in pulses; 0 for a normal note.
    pub l: u64,
    /// Whether the sound continues from the previous note.
    pub c: bool,
    /// The older long-note mode of this note.
    pub t: Option<LnMode>,
    /// Whether this is a key-up note.
    pub up: Option<bool>,
    /// The long-note kind of this note.
    pub ln_type_hint: Option<LnType>,
    /// The long-note judging of this note.
    pub ln_judge_hint: Option<LnJudge>,
    /// The long-note gauge effect of this note.
    pub ln_life_hint: Option<LnLife>,
    /// Volume adjustment.
    pub vol: Option<i8>,
    /// Pan adjustment.
    pub pan: Option<i8>,
}

impl NoteEvent {
    /// Whether the note is background music (lane 0).
    pub fn is_bgm(&self) -> (r: bool)
        ensures
            r == (self.x == 0),
    {
        self.x == 0
    }
}

/// A sound channel: a sound file and its notes.
#[derive(Clone, Debug, PartialEq, Eq)]
pub struct SoundChannel<C = String> {
    /// The sound file.
    pub name: C,
    /// The notes that play it.
    pub note_events: Vec<NoteEvent>,
}

/// A bar line.
#[derive(Clone, Debug, PartialEq, Eq, Copy)]
pub struct BarLine {
    /// Position in pulses.
    pub y: u64,
}

/// A stop.
#[derive(Clone, Debug, PartialEq, Eq, Copy)]
pub struct StopEvent {
    /// Position in pulses.
    pub y: u64,
    /// Length in pulses.
    pub duration: u64,
}

/// A BGA image definition.
#[derive(Clone, Debug, PartialEq, Eq)]
pub struct BGAHeader<C = String> {
    /// The image id.
    pub id: u64,
    /// The image file.
    pub name: C,
}

/// A BGA event.
#[derive(Clone, Debug, PartialEq, Eq, Copy)]
pub struct BGAEvent {
    /// Position in pulses.
    pub y: u64,
    /// The image id shown.
    pub id: u64,
}

/// The BGA definitions and events of a chart.
#[derive(Clone, Debug, PartialEq, Eq)]
pub struct BGA<C = String> {
    /// Image definitions.
    pub bga_header: Vec<BGAHeader<C>>,
    /// Base-layer events.
    pub bga_events: Vec<BGAEvent>,
    /// Overlay-layer events.
    pub layer_events: Vec<BGAEvent>,
    /// Events shown on a POOR judgement.
    pub poor_events: Vec<BGAEvent>,
}

impl Default for BGA<String> {
    fn default() -> (r: Self)
        ensures
            r.bga_header@.len() == 0,
            r.bga_events@.len() == 0,
            r.layer_events@.len() == 0,
            r.poor_events@.len() == 0,
    {
        BGA { bga_header: Vec::new(), bga_events: Vec::new(), layer_events: Vec::new(), poor_events: Vec::new() }
    }
}

/// A key channel: a sound file and the lanes that play it when pressed.
#[derive(Clone, Debug, PartialEq, Eq)]
pub struct KeyChannel<C = String> {
    /// The sound file.
    pub name: C,
    /// The key notes.
    pub notes: Vec<KeyNote>,
}

/// A key note.
#[derive(Clone, Debug, PartialEq, Eq, Copy)]
pub struct KeyNote {
    /// Lane.
    pub x: u64,
    /// Position in pulses.
    pub y: u64,
}

/// A mine channel: a sound file and the mines that play it.
#[derive(Clone, Debug, PartialEq, Eq)]
pub struct MineChannel<C = String> {
    /// The sound file.
    pub name: C,
    /// The mines.
    pub notes: Vec<MineNote>,
}

/// A mine.  Its damage, a floating-point number, is held as the bits of
/// its value (`f64::to_bits`).
#[derive(Clone, Debug, PartialEq, Eq, Copy)]
pub struct MineNote {
    /// Lane.
    pub x: u64,
    /// Position in pulses.
    pub y: u64,
    /// The damage's bits.
    pub damage_bits: u64,
}

/// A tempo change.  The tempo, a floating-point number, is held as the
/// bits of its value (`f64::to_bits`).
#[derive(Clone, Debug, PartialEq, Eq, Copy)]
pub struct BpmEvent {
    /// Position in pulses.
    pub y: u64,
    /// The tempo's bits.
    pub bpm_bits: u64,
}

/// A scroll-speed change.  The rate, a floating-point number, is held as
/// the bits of its value (`f64::to_bits`).
#[derive(Clone, Debug, PartialEq, Eq, Copy)]
pub struct ScrollEvent {
    /// Position in pulses.
    pub y: u64,
    /// The rate's bits.
    pub rate_bits: u64,
}

/// Judgement windows.
#[derive(Clone, Debug, PartialEq, Eq)]
pub struct JudgementDeltas {
    /// PERFECT window.
    pub perfect: u64,
    /// GREAT window.
    pub great: u64,
    /// GOOD window.
    pub good: u64,
    /// MISS window.
    pub miss: u64,
}

/// The song's identification.
#[derive(Clone, Debug, PartialEq, Eq)]
pub struct SongInfo<C = String> {
    /// Title.
    pub title: C,
    /// Artist.
    pub artist: C,
    /// Genre.
    pub genre: C,
}

/// The chart's presentation: subtitle, contributors, name, level, images,
/// preview sound and BGA.
#[derive(Clone, Debug, PartialEq, Eq)]
pub struct ChartInfo<C = String> {
    /// Subtitle, shown under the title; may hold line breaks.
    pub subtitle: C,
    /// Contributors besides the artist, each `key:value`.
    pub subartists: Vec<C>,
    /// The chart's name or difficulty label.
    pub chart_name: C,
    /// The difficulty level.
    pub level: u64,
    /// Background image during play.
    pub back_image: Option<C>,
    /// Image shown while the song loads.
    pub eyecatch_image: Option<C>,
    /// Banner for song select and results.
    pub banner_image: Option<C>,
    /// Short preview sound.
    pub preview_music: Option<C>,
    /// Title image shown before play.
    pub title_image: Option<C>,
    /// Background animation.
    pub bga: BGA<C>,
}

/// The pulses per quarter note that a chart has when none is given.
pub fn default_resolution() -> (r: u64)
    ensures
        r == 240,
{
    240
}

/// The resolution actually used for a given one: 0 means the default 240.
pub fn resolution_nonzero(v: u64) -> (r: u64)
    ensures
        r == if v == 0 {
            240
        } else {
            v
        },
{
    if v == 0 {
        240
    } else {
        v
    }
}

// ---------------------------------------------------------------------------
// Version detection
// ---------------------------------------------------------------------------

/// An error of the bmson readers.
#[derive(Debug, Clone, PartialEq, Eq)]
#[non_exhaustive]
pub enum BmsonError {
    /// The version field is missing its value or names no known version.
    UnknownVersion(String),
    /// A version-0 document could not be converted.
    V0Conversion(String),
}

/// A detected bmson format version.
#[derive(Debug, Clone, Copy, PartialEq, Eq, Structural)]
pub enum DetectedVersion {
    /// Version 0 (no version field, or a `0…` version).
    V0,
    /// Version 1.
    V1,
    /// Version 2.
    V2,
}

/// The position of the first occurrence of `p` in `s`, or `-1`.
pub open spec fn find_text(s: Seq<char>, p: Seq<char>) -> int
    decreases s.len(),
{
    if s.len() < p.len() {
        -1
    } else if s.take(p.len() as int) == p {
        0
    } else if s.len() == 0 {
        -1
    } else {
        let r = find_text(s.drop_first(), p);
        if r < 0 {
            -1
        } else {
            r + 1
        }
    }
}

proof fn lemma_find_text(s: Seq<char>, p: Seq<char>, k: int)
    requires
        0 <= k,
        p.len() > 0,
        forall|j: int|
            0 <= j < k && j + p.len() <= s.len() ==> #[trigger] s.subrange(j, j + p.len()) != p,
        k + p.len() <= s.len() ==> s.subrange(k, k + p.len()) == p,
        k + p.len() > s.len() ==> k >= s.len(),
    ensures
        find_text(s, p) == if k + p.len() <= s.len() {
            k
        } else {
            -1
        },
    decreases s.len(),
{
    if s.len() < p.len() {
    } else {
        assert(s.take(p.len() as int) == s.subrange(0, p.len() as int));
        if s.take(p.len() as int) == p {
            if k > 0 {
                assert(s.subrange(0, 0 + p.len() as int) != p);
            }
        } else {
            assert(k > 0);
            let t = s.drop_first();
            assert forall|j: int|
                0 <= j < k - 1 && j + p.len() <= t.len() implies #[trigger] t.subrange(
                j,
                j + p.len(),
            ) != p by {
                assert(t.subrange(j, j + p.len()) =~= s.subrange(j + 1, j + 1 + p.len()));
            }
            if k - 1 + p.len() <= t.len() {
                assert(t.subrange(k - 1, k - 1 + p.len()) =~= s.subrange(k, k + p.len()));
            }
            lemma_find_text(t, p, k - 1);
        }
    }
}

/// The message of a malformed version field without `:`.
pub open spec fn msg_expected_colon() -> Seq<char> {
    "malformed version field: expected ':'"@
}

/// The message of a version field whose value is not a string.
pub open spec fn msg_expected_string() -> Seq<char> {
    "malformed version field: expected string"@
}

/// The message of a version string without its closing quote.
pub open spec fn msg_unterminated() -> Seq<char> {
    "unterminated version string"@
}

/// What the version scan reads from a JSON text: the first `"version"` key
/// in the text, then optional whitespace, `:`, optional whitespace and a
/// string.  No key gives version 0; a version string starting with `2`,
/// `1` or `0` gives that version; anything else is an error that carries a
/// message or the unknown version.
pub open spec fn version_of(json: Seq<char>) -> Result<DetectedVersion, Seq<char>> {
    let key = seq!['"', 'v', 'e', 'r', 's', 'i', 'o', 'n', '"'];
    let k = find_text(json, key);
    if k < 0 {
        Ok(DetectedVersion::V0)
    } else {
        let r1 = trim_start(json.skip(k + 9));
        if r1.len() == 0 || r1[0] != ':' {
            Err(msg_expected_colon())
        } else {
            let r2 = trim_start(r1.drop_first());
            if r2.len() == 0 || r2[0] != '"' {
                Err(msg_expected_string())
            } else {
                let r3 = r2.drop_first();
                let e = first_index(r3, '"');
                if e < 0 {
                    Err(msg_unterminated())
                } else {
                    let v = r3.take(e);
                    if v.len() > 0 && v[0] == '2' {
                        Ok(DetectedVersion::V2)
                    } else if v.len() > 0 && v[0] == '1' {
                        Ok(DetectedVersion::V1)
                    } else if v.len() > 0 && v[0] == '0' {
                        Ok(DetectedVersion::V0)
                    } else {
                        Err(v)
                    }
                }
            }
        }
    }
}

/// Detects the format version of a bmson JSON text without parsing it (see
/// [`version_of`]); errors are `UnknownVersion`.
pub fn detect_version(json: &str) -> (r: Result<DetectedVersion, BmsonError>)
    ensures
        match version_of(json@) {
            Ok(v) => r == Ok::<DetectedVersion, BmsonError>(v),
            Err(m) => r matches Err(BmsonError::UnknownVersion(s)) && s@ == m,
        },
{
    let cs = crate::text::chars_of(json);
    let n = cs.len();
    let key = ['"', 'v', 'e', 'r', 's', 'i', 'o', 'n', '"'];
    let ghost p = seq!['"', 'v', 'e', 'r', 's', 'i', 'o', 'n', '"'];
    assert(key@ =~= p);
    let mut k: usize = 0;
    let mut found = false;
    while n >= 9 && k <= n - 9
        invariant_except_break
            !found,
        invariant
            k <= n == cs@.len(),
            key@ == p,
            forall|j: int| 0 <= j < k && j + 9 <= n ==> #[trigger] cs@.subrange(j, j + 9) != p,
        ensures
            k <= n,
            forall|j: int| 0 <= j < k && j + 9 <= n ==> #[trigger] cs@.subrange(j, j + 9) != p,
            found ==> k + 9 <= n && cs@.subrange(k as int, k + 9) == p,
            !found ==> k + 9 > n,
        decreases n - k,
    {
        if crate::text::range_eq(&cs, k, k + 9, key.as_slice()) {
            found = true;
            break;
        }
        k = k + 1;
    }
    proof {
        if found {
            lemma_find_text(cs@, p, k as int);
        } else {
            assert forall|j: int| 0 <= j < n && j + 9 <= n implies #[trigger] cs@.subrange(
                j,
                j + 9,
            ) != p by {
                assert(j < k);
            }
            lemma_find_text(cs@, p, n as int);
        }
        assert(cs@ =~= json@);
    }
    if !found {
        return Ok(DetectedVersion::V0);
    }
    let a1 = first_non_ws(&cs, k + 9);
    if a1 == n || cs[a1] != ':' {
        return Err(BmsonError::UnknownVersion("malformed version field: expected ':'".to_owned()));
    }
    let a2 = first_non_ws(&cs, a1 + 1);
    proof {
        assert(trim_start(cs@.skip(k + 9)).drop_first() =~= cs@.skip(a1 + 1));
    }
    if a2 == n || cs[a2] != '"' {
        return Err(BmsonError::UnknownVersion("malformed version field: expected string".to_owned()));
    }
    let e = crate::text::find_char(&cs, a2 + 1, n, '"');
    proof {
        assert(trim_start(cs@.skip(a1 + 1)).drop_first() =~= cs@.subrange(a2 + 1, n as int));
    }
    if e == n {
        return Err(BmsonError::UnknownVersion("unterminated version string".to_owned()));
    }
    proof {
        assert(cs@.subrange(a2 + 1, n as int).take(e - a2 - 1) =~= cs@.subrange(a2 + 1, e as int));
    }
    if e > a2 + 1 && cs[a2 + 1] == '2' {
        Ok(DetectedVersion::V2)
    } else if e > a2 + 1 && cs[a2 + 1] == '1' {
        Ok(DetectedVersion::V1)
    } else if e > a2 + 1 && cs[a2 + 1] == '0' {
        Ok(DetectedVersion::V0)
    } else {
        Err(BmsonError::UnknownVersion(crate::text::string_from_range(&cs, a2 + 1, e)))
    }
}

/// The first position at or after `i` that is not whitespace, or the end;
/// `cs[i..]` without that whitespace is `trim_start(cs[i..])`.
fn first_non_ws(cs: &[char], i: usize) -> (r: usize)
    requires
        i <= cs@.len(),
    ensures
        i <= r <= cs@.len(),
        trim_start(cs@.skip(i as int)) == cs@.skip(r as int),
{
    let n = cs.len();
    let mut j = i;
    while j < n && crate::text::is_ws_char(cs[j])
        invariant
            i <= j <= n == cs@.len(),
            forall|t: int| i <= t < j ==> crate::text::is_ws(#[trigger] cs@[t]),
        decreases n - j,
    {
        j = j + 1;
    }
    proof {
        let s = cs@.skip(i as int);
        crate::text::lemma_trim_start(s);
        let l = crate::text::lead_ws(s);
        if l < j - i {
            assert(s[l as int] == cs@[i + l]);
        }
        if l > j - i {
            assert(s[j - i] == cs@[j as int]);
        }
        assert(s.skip(l as int) =~= cs@.skip(j as int));
    }
    j
}

impl DetectedVersion {
    /// Detects the format version of a bmson JSON text (see
    /// [`detect_version`]).
    pub fn detect(json: &str) -> (r: Result<DetectedVersion, BmsonError>)
        ensures
            match version_of(json@) {
                Ok(v) => r == Ok::<DetectedVersion, BmsonError>(v),
                Err(m) => r matches Err(BmsonError::UnknownVersion(s)) && s@ == m,
            },
    {
        detect_version(json)
    }
}

} // verus!
