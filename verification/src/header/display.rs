//! Display and difficulty headers: `#STAGEFILE`, `#BANNER`, `#BACKBMP`,
//! `#CHARFILE`, `#PLAYLEVEL`, `#DIFFICULTY`, `#PREVIEW`.

use vstd::prelude::*;

use crate::error::{outcome_view, BmsTokenizeError};
use crate::text::{eq_ignore_case, is_float_literal};
use crate::value::{difficulty_of, DifficultyLevel};

verus! {

/// Display and difficulty headers.
#[derive(Debug, Clone, PartialEq)]
pub enum BmsHeaderDisplay<C = String> {
    /// `#STAGEFILE`: the loading image.
    StageFile(C),
    /// `#BANNER`: the banner image.
    Banner(C),
    /// `#BACKBMP`: the background image.
    BackBmp(C),
    /// `#CHARFILE`: the character file.
    CharFile(C),
    /// `#PLAYLEVEL`: the level, as its floating-point literal.
    PlayLevel(C),
    /// `#DIFFICULTY`: the difficulty, 1 to 5.
    Difficulty(DifficultyLevel),
    /// `#PREVIEW`: the preview sound.
    Preview(C),
}

impl View for BmsHeaderDisplay<String> {
    type V = BmsHeaderDisplay<Seq<char>>;

    open spec fn view(&self) -> BmsHeaderDisplay<Seq<char>> {
        match self {
            BmsHeaderDisplay::StageFile(x) => BmsHeaderDisplay::StageFile(x@),
            BmsHeaderDisplay::Banner(x) => BmsHeaderDisplay::Banner(x@),
            BmsHeaderDisplay::BackBmp(x) => BmsHeaderDisplay::BackBmp(x@),
            BmsHeaderDisplay::CharFile(x) => BmsHeaderDisplay::CharFile(x@),
            BmsHeaderDisplay::PlayLevel(x) => BmsHeaderDisplay::PlayLevel(x@),
            BmsHeaderDisplay::Difficulty(x) => BmsHeaderDisplay::Difficulty(*x),
            BmsHeaderDisplay::Preview(x) => BmsHeaderDisplay::Preview(x@),
        }
    }
}

/// The header that `cmd` and `val` denote among the BmsHeaderDisplay patterns, in
/// declaration order: `Ok(None)` when none matches.
pub open spec fn display_of(cmd: Seq<char>, val: Seq<char>) -> Result<
    Option<BmsHeaderDisplay<Seq<char>>>,
    BmsTokenizeError<Seq<char>>,
> {
    if eq_ignore_case(cmd, seq!['S', 'T', 'A', 'G', 'E', 'F', 'I', 'L', 'E']) {
        Ok(Some(BmsHeaderDisplay::StageFile(val)))
    } else if eq_ignore_case(cmd, seq!['B', 'A', 'N', 'N', 'E', 'R']) {
        Ok(Some(BmsHeaderDisplay::Banner(val)))
    } else if eq_ignore_case(cmd, seq!['B', 'A', 'C', 'K', 'B', 'M', 'P']) {
        Ok(Some(BmsHeaderDisplay::BackBmp(val)))
    } else if eq_ignore_case(cmd, seq!['C', 'H', 'A', 'R', 'F', 'I', 'L', 'E']) {
        Ok(Some(BmsHeaderDisplay::CharFile(val)))
    } else if eq_ignore_case(cmd, seq!['P', 'L', 'A', 'Y', 'L', 'E', 'V', 'E', 'L']) {
        if is_float_literal(val) {
            Ok(Some(BmsHeaderDisplay::PlayLevel(val)))
        } else {
            Err(BmsTokenizeError::InvalidFloat { value: val })
        }
    } else if eq_ignore_case(cmd, seq!['D', 'I', 'F', 'F', 'I', 'C', 'U', 'L', 'T', 'Y']) {
        match difficulty_of(val) {
            Some(v) => Ok(Some(BmsHeaderDisplay::Difficulty(DifficultyLevel::level(v)))),
            None => Err(
                BmsTokenizeError::OutOfRange { context: "#DIFFICULTY", value: val, expected: "1-5" },
            ),
        }
    } else if eq_ignore_case(cmd, seq!['P', 'R', 'E', 'V', 'I', 'E', 'W']) {
        Ok(Some(BmsHeaderDisplay::Preview(val)))
    } else {
        Ok(None)
    }
}

impl BmsHeaderDisplay<String> {

    /// Matches a command name and a value against this group's patterns.
    pub fn try_match_header(cmd: &str, val: &str) -> (r: Result<Option<Self>, BmsTokenizeError<String>>)
        ensures
            outcome_view(r) == display_of(cmd@, val@),
    {
        let c = crate::text::chars_of(cmd);
        let v = crate::text::chars_of(val);
        Self::match_chars(&c, &v)
    }
    /// Matches a command name and value against the BmsHeaderDisplay patterns.
    pub fn match_chars(cmd: &[char], val: &[char]) -> (r: Result<
        Option<Self>,
        BmsTokenizeError<String>,
    >)
        ensures
            outcome_view(r) == display_of(cmd@, val@),
    {
        let n = cmd.len();
        proof {
            assert(cmd@.subrange(0, n as int) =~= cmd@);
            assert(val@.subrange(0, val@.len() as int) =~= val@);
        }
        if crate::text::range_eq_ignore_case(cmd, 0, n, &['S', 'T', 'A', 'G', 'E', 'F', 'I', 'L', 'E']) {
            return Ok(Some(BmsHeaderDisplay::StageFile(crate::text::string_from(val))));
        }
        if crate::text::range_eq_ignore_case(cmd, 0, n, &['B', 'A', 'N', 'N', 'E', 'R']) {
            return Ok(Some(BmsHeaderDisplay::Banner(crate::text::string_from(val))));
        }
        if crate::text::range_eq_ignore_case(cmd, 0, n, &['B', 'A', 'C', 'K', 'B', 'M', 'P']) {
            return Ok(Some(BmsHeaderDisplay::BackBmp(crate::text::string_from(val))));
        }
        if crate::text::range_eq_ignore_case(cmd, 0, n, &['C', 'H', 'A', 'R', 'F', 'I', 'L', 'E']) {
            return Ok(Some(BmsHeaderDisplay::CharFile(crate::text::string_from(val))));
        }
        if crate::text::range_eq_ignore_case(cmd, 0, n, &['P', 'L', 'A', 'Y', 'L', 'E', 'V', 'E', 'L']) {
            if crate::text::float_literal_ok(val, 0, val.len()) {
                return Ok(Some(BmsHeaderDisplay::PlayLevel(crate::text::string_from(val))));
            } else {
                return Err(BmsTokenizeError::InvalidFloat { value: crate::text::string_from(val) });
            }
        }
        if crate::text::range_eq_ignore_case(cmd, 0, n, &['D', 'I', 'F', 'F', 'I', 'C', 'U', 'L', 'T', 'Y']) {
            match DifficultyLevel::from_chars(val, 0, val.len()) {
                Some(m) => {
                    return Ok(Some(BmsHeaderDisplay::Difficulty(m)));
                },
                None => {
                    return Err(
                        BmsTokenizeError::OutOfRange {
                            context: "#DIFFICULTY",
                            value: crate::text::string_from(val),
                            expected: "1-5",
                        },
                    );
                },
            }
        }
        if crate::text::range_eq_ignore_case(cmd, 0, n, &['P', 'R', 'E', 'V', 'I', 'E', 'W']) {
            return Ok(Some(BmsHeaderDisplay::Preview(crate::text::string_from(val))));
        }
        Ok(None)
    }
}

/// The command and the value of a header of this group as a BMS file writes
/// them: the command with its prefix (`%` for `URL` and `EMAIL`, `#`
/// otherwise), its first spelling and its index, and the value's text.
pub open spec fn display_text(h: BmsHeaderDisplay<Seq<char>>) -> (Seq<char>, Seq<char>) {
    match h {
        BmsHeaderDisplay::StageFile(v) => (seq!['#', 'S', 'T', 'A', 'G', 'E', 'F', 'I', 'L', 'E'], v),
        BmsHeaderDisplay::Banner(v) => (seq!['#', 'B', 'A', 'N', 'N', 'E', 'R'], v),
        BmsHeaderDisplay::BackBmp(v) => (seq!['#', 'B', 'A', 'C', 'K', 'B', 'M', 'P'], v),
        BmsHeaderDisplay::CharFile(v) => (seq!['#', 'C', 'H', 'A', 'R', 'F', 'I', 'L', 'E'], v),
        BmsHeaderDisplay::PlayLevel(v) => (seq!['#', 'P', 'L', 'A', 'Y', 'L', 'E', 'V', 'E', 'L'], crate::text::float_text(v)),
        BmsHeaderDisplay::Difficulty(v) => (seq!['#', 'D', 'I', 'F', 'F', 'I', 'C', 'U', 'L', 'T', 'Y'], crate::text::dec(v.value() as nat)),
        BmsHeaderDisplay::Preview(v) => (seq!['#', 'P', 'R', 'E', 'V', 'I', 'E', 'W'], v),
    }
}

impl BmsHeaderDisplay<String> {
    /// The command and the value of this header (see [`display_text`]).
    pub fn format_header(&self) -> (r: (String, String))
        ensures
            (r.0@, r.1@) == display_text(self@),
    {
        match self {
            BmsHeaderDisplay::StageFile(v) => (crate::text::string_from(&['#', 'S', 'T', 'A', 'G', 'E', 'F', 'I', 'L', 'E']), v.clone()),
            BmsHeaderDisplay::Banner(v) => (crate::text::string_from(&['#', 'B', 'A', 'N', 'N', 'E', 'R']), v.clone()),
            BmsHeaderDisplay::BackBmp(v) => (crate::text::string_from(&['#', 'B', 'A', 'C', 'K', 'B', 'M', 'P']), v.clone()),
            BmsHeaderDisplay::CharFile(v) => (crate::text::string_from(&['#', 'C', 'H', 'A', 'R', 'F', 'I', 'L', 'E']), v.clone()),
            BmsHeaderDisplay::PlayLevel(v) => (crate::text::string_from(&['#', 'P', 'L', 'A', 'Y', 'L', 'E', 'V', 'E', 'L']), crate::text::string_from(&crate::text::float_text_exec(&crate::text::chars_of(v.as_str())))),
            BmsHeaderDisplay::Difficulty(v) => (crate::text::string_from(&['#', 'D', 'I', 'F', 'F', 'I', 'C', 'U', 'L', 'T', 'Y']), v.to_string()),
            BmsHeaderDisplay::Preview(v) => (crate::text::string_from(&['#', 'P', 'R', 'E', 'V', 'I', 'E', 'W']), v.clone()),
        }
    }
}

/// Writing a header of this group and reading back its command (after the
/// prefix) and its value gives the same header,
/// for a header that reading can give: a level literal in the form that
/// writing gives it, and a difficulty from 1 to 5.
pub proof fn lemma_display_roundtrip(h: BmsHeaderDisplay<Seq<char>>)
    requires
        (h matches BmsHeaderDisplay::PlayLevel(v) ==> crate::text::canonical_float(v)),
        (h matches BmsHeaderDisplay::Difficulty(v) ==> 1 <= v.value() <= 5),
    ensures
        display_of(display_text(h).0.drop_first(), display_text(h).1) == Ok::<Option<BmsHeaderDisplay<Seq<char>>>, crate::error::BmsTokenizeError<Seq<char>>>(Some(h)),
{
    match h {
        BmsHeaderDisplay::StageFile(v) => {
            let c = seq!['S', 'T', 'A', 'G', 'E', 'F', 'I', 'L', 'E'];
            assert(display_text(h).0.drop_first() =~= c);
        },
        BmsHeaderDisplay::Banner(v) => {
            let c = seq!['B', 'A', 'N', 'N', 'E', 'R'];
            crate::header::lemma_ne_len(c, seq!['S', 'T', 'A', 'G', 'E', 'F', 'I', 'L', 'E']);
            assert(display_text(h).0.drop_first() =~= c);
        },
        BmsHeaderDisplay::BackBmp(v) => {
            let c = seq!['B', 'A', 'C', 'K', 'B', 'M', 'P'];
            crate::header::lemma_ne_len(c, seq!['S', 'T', 'A', 'G', 'E', 'F', 'I', 'L', 'E']);
            crate::header::lemma_ne_len(c, seq!['B', 'A', 'N', 'N', 'E', 'R']);
            assert(display_text(h).0.drop_first() =~= c);
        },
        BmsHeaderDisplay::CharFile(v) => {
            let c = seq!['C', 'H', 'A', 'R', 'F', 'I', 'L', 'E'];
            crate::header::lemma_ne_len(c, seq!['S', 'T', 'A', 'G', 'E', 'F', 'I', 'L', 'E']);
            crate::header::lemma_ne_len(c, seq!['B', 'A', 'N', 'N', 'E', 'R']);
            crate::header::lemma_ne_len(c, seq!['B', 'A', 'C', 'K', 'B', 'M', 'P']);
            assert(display_text(h).0.drop_first() =~= c);
        },
        BmsHeaderDisplay::PlayLevel(v) => {
            let c = seq!['P', 'L', 'A', 'Y', 'L', 'E', 'V', 'E', 'L'];
            crate::header::lemma_ne_at(c, seq!['S', 'T', 'A', 'G', 'E', 'F', 'I', 'L', 'E'], 0);
            crate::header::lemma_ne_len(c, seq!['B', 'A', 'N', 'N', 'E', 'R']);
            crate::header::lemma_ne_len(c, seq!['B', 'A', 'C', 'K', 'B', 'M', 'P']);
            crate::header::lemma_ne_len(c, seq!['C', 'H', 'A', 'R', 'F', 'I', 'L', 'E']);
            assert(display_text(h).0.drop_first() =~= c);
        },
        BmsHeaderDisplay::Difficulty(v) => {
            let c = seq!['D', 'I', 'F', 'F', 'I', 'C', 'U', 'L', 'T', 'Y'];
            crate::header::lemma_ne_len(c, seq!['S', 'T', 'A', 'G', 'E', 'F', 'I', 'L', 'E']);
            crate::header::lemma_ne_len(c, seq!['B', 'A', 'N', 'N', 'E', 'R']);
            crate::header::lemma_ne_len(c, seq!['B', 'A', 'C', 'K', 'B', 'M', 'P']);
            crate::header::lemma_ne_len(c, seq!['C', 'H', 'A', 'R', 'F', 'I', 'L', 'E']);
            crate::header::lemma_ne_len(c, seq!['P', 'L', 'A', 'Y', 'L', 'E', 'V', 'E', 'L']);
            crate::text::lemma_dec_parses(v.value() as nat, 0, 255, false);
            crate::value::DifficultyLevel::lemma_value_level(v);
            assert(display_text(h).0.drop_first() =~= c);
        },
        BmsHeaderDisplay::Preview(v) => {
            let c = seq!['P', 'R', 'E', 'V', 'I', 'E', 'W'];
            crate::header::lemma_ne_len(c, seq!['S', 'T', 'A', 'G', 'E', 'F', 'I', 'L', 'E']);
            crate::header::lemma_ne_len(c, seq!['B', 'A', 'N', 'N', 'E', 'R']);
            crate::header::lemma_ne_at(c, seq!['B', 'A', 'C', 'K', 'B', 'M', 'P'], 0);
            crate::header::lemma_ne_len(c, seq!['C', 'H', 'A', 'R', 'F', 'I', 'L', 'E']);
            crate::header::lemma_ne_len(c, seq!['P', 'L', 'A', 'Y', 'L', 'E', 'V', 'E', 'L']);
            crate::header::lemma_ne_len(c, seq!['D', 'I', 'F', 'F', 'I', 'C', 'U', 'L', 'T', 'Y']);
            assert(display_text(h).0.drop_first() =~= c);
        },
    }
}

} // verus!
