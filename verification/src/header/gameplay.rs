//! Gameplay headers: `#PLAYER`, `#RANK`, `#DEFEXRANK`, `#EXRANK`, `#TOTAL`,
//! `#VOLWAV`, `#LNTYPE`, `#LNOBJ`, `#LNMODE`, `#OCT/FP`, `#OPTION`,
//! `#CHANGEOPTION`, `#BASE`.

use vstd::prelude::*;

use crate::error::{outcome_view, BmsTokenizeError};
use crate::header::cmd_has_id;
use crate::text::{eq_ignore_case, is_float_literal};
use crate::index::{index_from_text, index_text_ok, BmsBase, BmsIndex, ChangeOptionIndex, ExRankIndex, LnObjIndex};
use crate::value::{bms_base_from_chars, bms_base_of, ln_mode_of, ln_type_of, player_mode_of, rank_of, LnMode, LnType, PlayerMode, Rank};

verus! {

/// Gameplay headers.
#[derive(Debug, Clone, PartialEq)]
pub enum BmsHeaderGameplay<C = String> {
    /// `#PLAYER`: the play side layout.
    Player(PlayerMode),
    /// `#RANK`: the judge difficulty.
    Rank(Rank),
    /// `#DEFEXRANK`: the judge width in percent, as its literal.
    DefExRank(C),
    /// `#EXRANK{id}`: a judge width for the `A0` channel.
    ExRank {
        /// The index.
        id: ExRankIndex,
        /// The value.
        value: C,
    },
    /// `#TOTAL`: the gauge total, as its literal.
    Total(C),
    /// `#VOLWAV`: the sound volume in percent, as its literal.
    VolWav(C),
    /// `#LNTYPE`: the long-note encoding.
    LnType(LnType),
    /// `#LNOBJ`: the sound that ends a long note.
    LnObj(LnObjIndex),
    /// `#LNMODE`: the long-note judging.
    LnMode(LnMode),
    /// `#OCT/FP` (or `#OCT`, `#FP`): octave / foot-pedal mode.
    OctFp,
    /// `#OPTION`: an engine option.
    Option(C),
    /// `#CHANGEOPTION{id}`: an option changed during play.
    ChangeOption {
        /// The index.
        id: ChangeOptionIndex,
        /// The value.
        value: C,
    },
    /// `#BASE`: the character set of indices (`16`, `36` or `62`).
    Base(BmsBase),
}

impl View for BmsHeaderGameplay<String> {
    type V = BmsHeaderGameplay<Seq<char>>;

    open spec fn view(&self) -> BmsHeaderGameplay<Seq<char>> {
        match self {
            BmsHeaderGameplay::Player(x) => BmsHeaderGameplay::Player(*x),
            BmsHeaderGameplay::Rank(x) => BmsHeaderGameplay::Rank(*x),
            BmsHeaderGameplay::DefExRank(x) => BmsHeaderGameplay::DefExRank(x@),
            BmsHeaderGameplay::ExRank { id, value } => BmsHeaderGameplay::ExRank { id: *id, value: value@ },
            BmsHeaderGameplay::Total(x) => BmsHeaderGameplay::Total(x@),
            BmsHeaderGameplay::VolWav(x) => BmsHeaderGameplay::VolWav(x@),
            BmsHeaderGameplay::LnType(x) => BmsHeaderGameplay::LnType(*x),
            BmsHeaderGameplay::LnObj(x) => BmsHeaderGameplay::LnObj(*x),
            BmsHeaderGameplay::LnMode(x) => BmsHeaderGameplay::LnMode(*x),
            BmsHeaderGameplay::OctFp => BmsHeaderGameplay::OctFp,
            BmsHeaderGameplay::Option(x) => BmsHeaderGameplay::Option(x@),
            BmsHeaderGameplay::ChangeOption { id, value } => BmsHeaderGameplay::ChangeOption { id: *id, value: value@ },
            BmsHeaderGameplay::Base(x) => BmsHeaderGameplay::Base(*x),
        }
    }
}

/// The header that `cmd` and `val` denote among the BmsHeaderGameplay patterns, in
/// declaration order: `Ok(None)` when none matches.
pub open spec fn gameplay_of(cmd: Seq<char>, val: Seq<char>) -> Result<
    Option<BmsHeaderGameplay<Seq<char>>>,
    BmsTokenizeError<Seq<char>>,
> {
    if eq_ignore_case(cmd, seq!['P', 'L', 'A', 'Y', 'E', 'R']) {
        match player_mode_of(val) {
            Some(m) => Ok(Some(BmsHeaderGameplay::Player(m))),
            None => Err(
                BmsTokenizeError::OutOfRange { context: "#PLAYER", value: val, expected: "1-4, SP, CP, DP or BP" },
            ),
        }
    } else if eq_ignore_case(cmd, seq!['R', 'A', 'N', 'K']) {
        match rank_of(val) {
            Some(m) => Ok(Some(BmsHeaderGameplay::Rank(m))),
            None => Err(BmsTokenizeError::InvalidInteger { value: val }),
        }
    } else if eq_ignore_case(cmd, seq!['D', 'E', 'F', 'E', 'X', 'R', 'A', 'N', 'K']) {
        if is_float_literal(val) {
            Ok(Some(BmsHeaderGameplay::DefExRank(val)))
        } else {
            Err(BmsTokenizeError::InvalidFloat { value: val })
        }
    } else if cmd_has_id(cmd, seq!['E', 'X', 'R', 'A', 'N', 'K']) {
        if index_text_ok(cmd.skip(6)) {
            if is_float_literal(val) {
            Ok(Some(BmsHeaderGameplay::ExRank { id: ExRankIndex(index_from_text(cmd.skip(6))), value: val }))
        } else {
            Err(BmsTokenizeError::InvalidFloat { value: val })
        }
        } else {
            Err(BmsTokenizeError::InvalidInteger { value: cmd.skip(6) })
        }
    } else if eq_ignore_case(cmd, seq!['T', 'O', 'T', 'A', 'L']) {
        if is_float_literal(val) {
            Ok(Some(BmsHeaderGameplay::Total(val)))
        } else {
            Err(BmsTokenizeError::InvalidFloat { value: val })
        }
    } else if eq_ignore_case(cmd, seq!['V', 'O', 'L', 'W', 'A', 'V']) {
        if is_float_literal(val) {
            Ok(Some(BmsHeaderGameplay::VolWav(val)))
        } else {
            Err(BmsTokenizeError::InvalidFloat { value: val })
        }
    } else if eq_ignore_case(cmd, seq!['L', 'N', 'T', 'Y', 'P', 'E']) {
        match ln_type_of(val) {
            Some(m) => Ok(Some(BmsHeaderGameplay::LnType(m))),
            None => Err(
                BmsTokenizeError::OutOfRange { context: "#LNTYPE", value: val, expected: "1 or 2" },
            ),
        }
    } else if eq_ignore_case(cmd, seq!['L', 'N', 'O', 'B', 'J']) {
        if index_text_ok(val) {
            Ok(Some(BmsHeaderGameplay::LnObj(LnObjIndex(index_from_text(val)))))
        } else {
            Err(BmsTokenizeError::InvalidInteger { value: val })
        }
    } else if eq_ignore_case(cmd, seq!['L', 'N', 'M', 'O', 'D', 'E']) {
        match ln_mode_of(val) {
            Some(m) => Ok(Some(BmsHeaderGameplay::LnMode(m))),
            None => Err(
                BmsTokenizeError::OutOfRange { context: "#LNMODE", value: val, expected: "1, 2 or 3" },
            ),
        }
    } else if eq_ignore_case(cmd, seq!['O', 'C', 'T', '/', 'F', 'P']) {
        Ok(Some(BmsHeaderGameplay::OctFp))
    } else if eq_ignore_case(cmd, seq!['O', 'C', 'T']) {
        Ok(Some(BmsHeaderGameplay::OctFp))
    } else if eq_ignore_case(cmd, seq!['F', 'P']) {
        Ok(Some(BmsHeaderGameplay::OctFp))
    } else if eq_ignore_case(cmd, seq!['O', 'P', 'T', 'I', 'O', 'N']) {
        Ok(Some(BmsHeaderGameplay::Option(val)))
    } else if cmd_has_id(cmd, seq!['C', 'H', 'A', 'N', 'G', 'E', 'O', 'P', 'T', 'I', 'O', 'N']) {
        if index_text_ok(cmd.skip(12)) {
            Ok(Some(BmsHeaderGameplay::ChangeOption { id: ChangeOptionIndex(index_from_text(cmd.skip(12))), value: val }))
        } else {
            Err(BmsTokenizeError::InvalidInteger { value: cmd.skip(12) })
        }
    } else if eq_ignore_case(cmd, seq!['B', 'A', 'S', 'E']) && bms_base_of(val) is Some {
        Ok(Some(BmsHeaderGameplay::Base(bms_base_of(val).unwrap())))
    } else {
        Ok(None)
    }
}

impl BmsHeaderGameplay<String> {

    /// Matches a command name and a value against this group's patterns.
    pub fn try_match_header(cmd: &str, val: &str) -> (r: Result<Option<Self>, BmsTokenizeError<String>>)
        ensures
            outcome_view(r) == gameplay_of(cmd@, val@),
    {
        let c = crate::text::chars_of(cmd);
        let v = crate::text::chars_of(val);
        Self::match_chars(&c, &v)
    }
    /// Matches a command name and value against the BmsHeaderGameplay patterns.
    pub fn match_chars(cmd: &[char], val: &[char]) -> (r: Result<
        Option<Self>,
        BmsTokenizeError<String>,
    >)
        ensures
            outcome_view(r) == gameplay_of(cmd@, val@),
    {
        let n = cmd.len();
        proof {
            assert(cmd@.subrange(0, n as int) =~= cmd@);
            assert(val@.subrange(0, val@.len() as int) =~= val@);
        }
        if crate::text::range_eq_ignore_case(cmd, 0, n, &['P', 'L', 'A', 'Y', 'E', 'R']) {
            match PlayerMode::from_chars(val, 0, val.len()) {
                Some(m) => {
                    return Ok(Some(BmsHeaderGameplay::Player(m)));
                },
                None => {
                    return Err(
                        BmsTokenizeError::OutOfRange {
                            context: "#PLAYER",
                            value: crate::text::string_from(val),
                            expected: "1-4, SP, CP, DP or BP",
                        },
                    );
                },
            }
        }
        if crate::text::range_eq_ignore_case(cmd, 0, n, &['R', 'A', 'N', 'K']) {
            match Rank::from_chars(val, 0, val.len()) {
                Some(m) => {
                    return Ok(Some(BmsHeaderGameplay::Rank(m)));
                },
                None => {
                    return Err(BmsTokenizeError::InvalidInteger { value: crate::text::string_from(val) });
                },
            }
        }
        if crate::text::range_eq_ignore_case(cmd, 0, n, &['D', 'E', 'F', 'E', 'X', 'R', 'A', 'N', 'K']) {
            if crate::text::float_literal_ok(val, 0, val.len()) {
                return Ok(Some(BmsHeaderGameplay::DefExRank(crate::text::string_from(val))));
            } else {
                return Err(BmsTokenizeError::InvalidFloat { value: crate::text::string_from(val) });
            }
        }
        if n > 6 && n <= 8 && crate::text::range_eq_ignore_case(cmd, 0, 6, &['E', 'X', 'R', 'A', 'N', 'K']) {
            let i = match BmsIndex::parse_chars(cmd, 6, n) {
                Some(i) => i,
                None => {
                    return Err(
                        BmsTokenizeError::InvalidInteger {
                            value: crate::text::string_from_range(cmd, 6, n),
                        },
                    );
                },
            };
            if crate::text::float_literal_ok(val, 0, val.len()) {
                return Ok(Some(BmsHeaderGameplay::ExRank { id: ExRankIndex(i), value: crate::text::string_from(val) }));
            } else {
                return Err(BmsTokenizeError::InvalidFloat { value: crate::text::string_from(val) });
            }
        }
        if crate::text::range_eq_ignore_case(cmd, 0, n, &['T', 'O', 'T', 'A', 'L']) {
            if crate::text::float_literal_ok(val, 0, val.len()) {
                return Ok(Some(BmsHeaderGameplay::Total(crate::text::string_from(val))));
            } else {
                return Err(BmsTokenizeError::InvalidFloat { value: crate::text::string_from(val) });
            }
        }
        if crate::text::range_eq_ignore_case(cmd, 0, n, &['V', 'O', 'L', 'W', 'A', 'V']) {
            if crate::text::float_literal_ok(val, 0, val.len()) {
                return Ok(Some(BmsHeaderGameplay::VolWav(crate::text::string_from(val))));
            } else {
                return Err(BmsTokenizeError::InvalidFloat { value: crate::text::string_from(val) });
            }
        }
        if crate::text::range_eq_ignore_case(cmd, 0, n, &['L', 'N', 'T', 'Y', 'P', 'E']) {
            match LnType::from_chars(val, 0, val.len()) {
                Some(m) => {
                    return Ok(Some(BmsHeaderGameplay::LnType(m)));
                },
                None => {
                    return Err(
                        BmsTokenizeError::OutOfRange {
                            context: "#LNTYPE",
                            value: crate::text::string_from(val),
                            expected: "1 or 2",
                        },
                    );
                },
            }
        }
        if crate::text::range_eq_ignore_case(cmd, 0, n, &['L', 'N', 'O', 'B', 'J']) {
            match BmsIndex::parse_chars(val, 0, val.len()) {
                Some(i) => {
                    return Ok(Some(BmsHeaderGameplay::LnObj(LnObjIndex(i))));
                },
                None => {
                    return Err(BmsTokenizeError::InvalidInteger { value: crate::text::string_from(val) });
                },
            }
        }
        if crate::text::range_eq_ignore_case(cmd, 0, n, &['L', 'N', 'M', 'O', 'D', 'E']) {
            match LnMode::from_chars(val, 0, val.len()) {
                Some(m) => {
                    return Ok(Some(BmsHeaderGameplay::LnMode(m)));
                },
                None => {
                    return Err(
                        BmsTokenizeError::OutOfRange {
                            context: "#LNMODE",
                            value: crate::text::string_from(val),
                            expected: "1, 2 or 3",
                        },
                    );
                },
            }
        }
        if crate::text::range_eq_ignore_case(cmd, 0, n, &['O', 'C', 'T', '/', 'F', 'P']) {
            return Ok(Some(BmsHeaderGameplay::OctFp));
        }
        if crate::text::range_eq_ignore_case(cmd, 0, n, &['O', 'C', 'T']) {
            return Ok(Some(BmsHeaderGameplay::OctFp));
        }
        if crate::text::range_eq_ignore_case(cmd, 0, n, &['F', 'P']) {
            return Ok(Some(BmsHeaderGameplay::OctFp));
        }
        if crate::text::range_eq_ignore_case(cmd, 0, n, &['O', 'P', 'T', 'I', 'O', 'N']) {
            return Ok(Some(BmsHeaderGameplay::Option(crate::text::string_from(val))));
        }
        if n > 12 && n <= 14 && crate::text::range_eq_ignore_case(cmd, 0, 12, &['C', 'H', 'A', 'N', 'G', 'E', 'O', 'P', 'T', 'I', 'O', 'N']) {
            let i = match BmsIndex::parse_chars(cmd, 12, n) {
                Some(i) => i,
                None => {
                    return Err(
                        BmsTokenizeError::InvalidInteger {
                            value: crate::text::string_from_range(cmd, 12, n),
                        },
                    );
                },
            };
            return Ok(Some(BmsHeaderGameplay::ChangeOption { id: ChangeOptionIndex(i), value: crate::text::string_from(val) }));
        }
        if crate::text::range_eq_ignore_case(cmd, 0, n, &['B', 'A', 'S', 'E']) {
            if let Some(p) = bms_base_from_chars(val, 0, val.len()) {
                return Ok(Some(BmsHeaderGameplay::Base(p)));
            }
        }
        Ok(None)
    }
}

/// The command and the value of a header of this group as a BMS file writes
/// them: the command with its prefix (`%` for `URL` and `EMAIL`, `#`
/// otherwise), its first spelling and its index, and the value's text.
pub open spec fn gameplay_text(h: BmsHeaderGameplay<Seq<char>>) -> (Seq<char>, Seq<char>) {
    match h {
        BmsHeaderGameplay::Player(v) => (seq!['#', 'P', 'L', 'A', 'Y', 'E', 'R'], crate::value::player_mode_code(v)),
        BmsHeaderGameplay::Rank(v) => (seq!['#', 'R', 'A', 'N', 'K'], crate::text::dec(crate::value::rank_value(v) as nat)),
        BmsHeaderGameplay::DefExRank(v) => (seq!['#', 'D', 'E', 'F', 'E', 'X', 'R', 'A', 'N', 'K'], crate::text::float_text(v)),
        BmsHeaderGameplay::ExRank { id, value } => (seq!['#', 'E', 'X', 'R', 'A', 'N', 'K'] + crate::index::ascii_text(id.0@), crate::text::float_text(value)),
        BmsHeaderGameplay::Total(v) => (seq!['#', 'T', 'O', 'T', 'A', 'L'], crate::text::float_text(v)),
        BmsHeaderGameplay::VolWav(v) => (seq!['#', 'V', 'O', 'L', 'W', 'A', 'V'], crate::text::float_text(v)),
        BmsHeaderGameplay::LnType(v) => (seq!['#', 'L', 'N', 'T', 'Y', 'P', 'E'], crate::value::ln_type_code(v)),
        BmsHeaderGameplay::LnObj(v) => (seq!['#', 'L', 'N', 'O', 'B', 'J'], crate::index::ascii_text(v.0@)),
        BmsHeaderGameplay::LnMode(v) => (seq!['#', 'L', 'N', 'M', 'O', 'D', 'E'], crate::value::ln_mode_code(v)),
        BmsHeaderGameplay::OctFp => (seq!['#', 'O', 'C', 'T', '/', 'F', 'P'], Seq::empty()),
        BmsHeaderGameplay::Option(v) => (seq!['#', 'O', 'P', 'T', 'I', 'O', 'N'], v),
        BmsHeaderGameplay::ChangeOption { id, value } => (seq!['#', 'C', 'H', 'A', 'N', 'G', 'E', 'O', 'P', 'T', 'I', 'O', 'N'] + crate::index::ascii_text(id.0@), value),
        BmsHeaderGameplay::Base(v) => (seq!['#', 'B', 'A', 'S', 'E'], crate::header::bms_base_text(v)),
    }
}

impl BmsHeaderGameplay<String> {
    /// The command and the value of this header (see [`gameplay_text`]).
    pub fn format_header(&self) -> (r: (String, String))
        ensures
            (r.0@, r.1@) == gameplay_text(self@),
    {
        match self {
            BmsHeaderGameplay::Player(v) => (crate::text::string_from(&['#', 'P', 'L', 'A', 'Y', 'E', 'R']), v.to_string()),
            BmsHeaderGameplay::Rank(v) => (crate::text::string_from(&['#', 'R', 'A', 'N', 'K']), v.to_string()),
            BmsHeaderGameplay::DefExRank(v) => (crate::text::string_from(&['#', 'D', 'E', 'F', 'E', 'X', 'R', 'A', 'N', 'K']), crate::text::string_from(&crate::text::float_text_exec(&crate::text::chars_of(v.as_str())))),
            BmsHeaderGameplay::ExRank { id, value } => (crate::header::cmd_with_id(&['#', 'E', 'X', 'R', 'A', 'N', 'K'], &id.0), crate::text::string_from(&crate::text::float_text_exec(&crate::text::chars_of(value.as_str())))),
            BmsHeaderGameplay::Total(v) => (crate::text::string_from(&['#', 'T', 'O', 'T', 'A', 'L']), crate::text::string_from(&crate::text::float_text_exec(&crate::text::chars_of(v.as_str())))),
            BmsHeaderGameplay::VolWav(v) => (crate::text::string_from(&['#', 'V', 'O', 'L', 'W', 'A', 'V']), crate::text::string_from(&crate::text::float_text_exec(&crate::text::chars_of(v.as_str())))),
            BmsHeaderGameplay::LnType(v) => (crate::text::string_from(&['#', 'L', 'N', 'T', 'Y', 'P', 'E']), v.to_string()),
            BmsHeaderGameplay::LnObj(v) => (crate::text::string_from(&['#', 'L', 'N', 'O', 'B', 'J']), v.0.to_string()),
            BmsHeaderGameplay::LnMode(v) => (crate::text::string_from(&['#', 'L', 'N', 'M', 'O', 'D', 'E']), v.to_string()),
            BmsHeaderGameplay::OctFp => (crate::text::string_from(&['#', 'O', 'C', 'T', '/', 'F', 'P']), String::new()),
            BmsHeaderGameplay::Option(v) => (crate::text::string_from(&['#', 'O', 'P', 'T', 'I', 'O', 'N']), v.clone()),
            BmsHeaderGameplay::ChangeOption { id, value } => (crate::header::cmd_with_id(&['#', 'C', 'H', 'A', 'N', 'G', 'E', 'O', 'P', 'T', 'I', 'O', 'N'], &id.0), value.clone()),
            BmsHeaderGameplay::Base(v) => (crate::text::string_from(&['#', 'B', 'A', 'S', 'E']), crate::header::bms_base_string(*v)),
        }
    }
}

/// Writing a header of this group and reading back its command (after the
/// prefix) and its value gives the same header,
/// for a header that reading can give: valid indices, a `#RANK` outside
/// 0-4 kept as `Other`, and number literals in the form that writing
/// gives them.
pub proof fn lemma_gameplay_roundtrip(h: BmsHeaderGameplay<Seq<char>>)
    requires
        (h matches BmsHeaderGameplay::Rank(v) ==> (v matches crate::value::Rank::Other(n) ==> n > 4)),
        (h matches BmsHeaderGameplay::DefExRank(v) ==> crate::text::canonical_float(v)),
        (h matches BmsHeaderGameplay::ExRank { id, .. } ==> crate::index::index_text_ok(crate::index::ascii_text(id.0@))),
        (h matches BmsHeaderGameplay::ExRank { value: v, .. } ==> crate::text::canonical_float(v)),
        (h matches BmsHeaderGameplay::Total(v) ==> crate::text::canonical_float(v)),
        (h matches BmsHeaderGameplay::VolWav(v) ==> crate::text::canonical_float(v)),
        (h matches BmsHeaderGameplay::LnObj(v) ==> crate::index::index_text_ok(crate::index::ascii_text(v.0@))),
        (h matches BmsHeaderGameplay::ChangeOption { id, .. } ==> crate::index::index_text_ok(crate::index::ascii_text(id.0@))),
    ensures
        gameplay_of(gameplay_text(h).0.drop_first(), gameplay_text(h).1) == Ok::<Option<BmsHeaderGameplay<Seq<char>>>, crate::error::BmsTokenizeError<Seq<char>>>(Some(h)),
{
    match h {
        BmsHeaderGameplay::Player(v) => {
            let c = seq!['P', 'L', 'A', 'Y', 'E', 'R'];
            crate::value::lemma_player_mode_of_roundtrip(v);
            assert(gameplay_text(h).0.drop_first() =~= c);
        },
        BmsHeaderGameplay::Rank(v) => {
            let c = seq!['R', 'A', 'N', 'K'];
            crate::header::lemma_ne_len(c, seq!['P', 'L', 'A', 'Y', 'E', 'R']);
            crate::value::lemma_rank_roundtrip(v);
            assert(gameplay_text(h).0.drop_first() =~= c);
        },
        BmsHeaderGameplay::DefExRank(v) => {
            let c = seq!['D', 'E', 'F', 'E', 'X', 'R', 'A', 'N', 'K'];
            crate::header::lemma_ne_len(c, seq!['P', 'L', 'A', 'Y', 'E', 'R']);
            crate::header::lemma_ne_len(c, seq!['R', 'A', 'N', 'K']);
            assert(gameplay_text(h).0.drop_first() =~= c);
        },
        BmsHeaderGameplay::ExRank { id, value: v } => {
            let c = seq!['E', 'X', 'R', 'A', 'N', 'K'] + crate::index::ascii_text(id.0@);
            assert(c.take(6) =~= seq!['E', 'X', 'R', 'A', 'N', 'K']);
            assert(c.skip(6) =~= crate::index::ascii_text(id.0@));
            crate::index::lemma_index_text_roundtrip(id.0);
            crate::header::lemma_ne_len(c, seq!['P', 'L', 'A', 'Y', 'E', 'R']);
            crate::header::lemma_ne_len(c, seq!['R', 'A', 'N', 'K']);
            crate::header::lemma_ne_len(c, seq!['D', 'E', 'F', 'E', 'X', 'R', 'A', 'N', 'K']);
            assert(gameplay_text(h).0.drop_first() =~= c);
        },
        BmsHeaderGameplay::Total(v) => {
            let c = seq!['T', 'O', 'T', 'A', 'L'];
            crate::header::lemma_ne_len(c, seq!['P', 'L', 'A', 'Y', 'E', 'R']);
            crate::header::lemma_ne_len(c, seq!['R', 'A', 'N', 'K']);
            crate::header::lemma_ne_len(c, seq!['D', 'E', 'F', 'E', 'X', 'R', 'A', 'N', 'K']);
            assert(!crate::header::cmd_has_id(c, seq!['E', 'X', 'R', 'A', 'N', 'K']));
            assert(gameplay_text(h).0.drop_first() =~= c);
        },
        BmsHeaderGameplay::VolWav(v) => {
            let c = seq!['V', 'O', 'L', 'W', 'A', 'V'];
            crate::header::lemma_ne_at(c, seq!['P', 'L', 'A', 'Y', 'E', 'R'], 0);
            crate::header::lemma_ne_len(c, seq!['R', 'A', 'N', 'K']);
            crate::header::lemma_ne_len(c, seq!['D', 'E', 'F', 'E', 'X', 'R', 'A', 'N', 'K']);
            assert(!crate::header::cmd_has_id(c, seq!['E', 'X', 'R', 'A', 'N', 'K']));
            crate::header::lemma_ne_len(c, seq!['T', 'O', 'T', 'A', 'L']);
            assert(gameplay_text(h).0.drop_first() =~= c);
        },
        BmsHeaderGameplay::LnType(v) => {
            let c = seq!['L', 'N', 'T', 'Y', 'P', 'E'];
            crate::header::lemma_ne_at(c, seq!['P', 'L', 'A', 'Y', 'E', 'R'], 0);
            crate::header::lemma_ne_len(c, seq!['R', 'A', 'N', 'K']);
            crate::header::lemma_ne_len(c, seq!['D', 'E', 'F', 'E', 'X', 'R', 'A', 'N', 'K']);
            assert(!crate::header::cmd_has_id(c, seq!['E', 'X', 'R', 'A', 'N', 'K']));
            crate::header::lemma_ne_len(c, seq!['T', 'O', 'T', 'A', 'L']);
            crate::header::lemma_ne_at(c, seq!['V', 'O', 'L', 'W', 'A', 'V'], 0);
            crate::value::lemma_ln_type_of_roundtrip(v);
            assert(gameplay_text(h).0.drop_first() =~= c);
        },
        BmsHeaderGameplay::LnObj(v) => {
            let c = seq!['L', 'N', 'O', 'B', 'J'];
            crate::header::lemma_ne_len(c, seq!['P', 'L', 'A', 'Y', 'E', 'R']);
            crate::header::lemma_ne_len(c, seq!['R', 'A', 'N', 'K']);
            crate::header::lemma_ne_len(c, seq!['D', 'E', 'F', 'E', 'X', 'R', 'A', 'N', 'K']);
            assert(!crate::header::cmd_has_id(c, seq!['E', 'X', 'R', 'A', 'N', 'K']));
            crate::header::lemma_ne_at(c, seq!['T', 'O', 'T', 'A', 'L'], 0);
            crate::header::lemma_ne_len(c, seq!['V', 'O', 'L', 'W', 'A', 'V']);
            crate::header::lemma_ne_len(c, seq!['L', 'N', 'T', 'Y', 'P', 'E']);
            crate::index::lemma_index_text_roundtrip(v.0);
            assert(gameplay_text(h).0.drop_first() =~= c);
        },
        BmsHeaderGameplay::LnMode(v) => {
            let c = seq!['L', 'N', 'M', 'O', 'D', 'E'];
            crate::header::lemma_ne_at(c, seq!['P', 'L', 'A', 'Y', 'E', 'R'], 0);
            crate::header::lemma_ne_len(c, seq!['R', 'A', 'N', 'K']);
            crate::header::lemma_ne_len(c, seq!['D', 'E', 'F', 'E', 'X', 'R', 'A', 'N', 'K']);
            assert(!crate::header::cmd_has_id(c, seq!['E', 'X', 'R', 'A', 'N', 'K']));
            crate::header::lemma_ne_len(c, seq!['T', 'O', 'T', 'A', 'L']);
            crate::header::lemma_ne_at(c, seq!['V', 'O', 'L', 'W', 'A', 'V'], 0);
            crate::header::lemma_ne_at(c, seq!['L', 'N', 'T', 'Y', 'P', 'E'], 2);
            crate::header::lemma_ne_len(c, seq!['L', 'N', 'O', 'B', 'J']);
            crate::value::lemma_ln_mode_of_roundtrip(v);
            assert(gameplay_text(h).0.drop_first() =~= c);
        },
        BmsHeaderGameplay::OctFp => {
            let c = seq!['O', 'C', 'T', '/', 'F', 'P'];
            crate::header::lemma_ne_at(c, seq!['P', 'L', 'A', 'Y', 'E', 'R'], 0);
            crate::header::lemma_ne_len(c, seq!['R', 'A', 'N', 'K']);
            crate::header::lemma_ne_len(c, seq!['D', 'E', 'F', 'E', 'X', 'R', 'A', 'N', 'K']);
            assert(!crate::header::cmd_has_id(c, seq!['E', 'X', 'R', 'A', 'N', 'K']));
            crate::header::lemma_ne_len(c, seq!['T', 'O', 'T', 'A', 'L']);
            crate::header::lemma_ne_at(c, seq!['V', 'O', 'L', 'W', 'A', 'V'], 0);
            crate::header::lemma_ne_at(c, seq!['L', 'N', 'T', 'Y', 'P', 'E'], 0);
            crate::header::lemma_ne_len(c, seq!['L', 'N', 'O', 'B', 'J']);
            crate::header::lemma_ne_at(c, seq!['L', 'N', 'M', 'O', 'D', 'E'], 0);
            assert(gameplay_text(h).0.drop_first() =~= c);
        },
        BmsHeaderGameplay::Option(v) => {
            let c = seq!['O', 'P', 'T', 'I', 'O', 'N'];
            crate::header::lemma_ne_at(c, seq!['P', 'L', 'A', 'Y', 'E', 'R'], 0);
            crate::header::lemma_ne_len(c, seq!['R', 'A', 'N', 'K']);
            crate::header::lemma_ne_len(c, seq!['D', 'E', 'F', 'E', 'X', 'R', 'A', 'N', 'K']);
            assert(!crate::header::cmd_has_id(c, seq!['E', 'X', 'R', 'A', 'N', 'K']));
            crate::header::lemma_ne_len(c, seq!['T', 'O', 'T', 'A', 'L']);
            crate::header::lemma_ne_at(c, seq!['V', 'O', 'L', 'W', 'A', 'V'], 0);
            crate::header::lemma_ne_at(c, seq!['L', 'N', 'T', 'Y', 'P', 'E'], 0);
            crate::header::lemma_ne_len(c, seq!['L', 'N', 'O', 'B', 'J']);
            crate::header::lemma_ne_at(c, seq!['L', 'N', 'M', 'O', 'D', 'E'], 0);
            crate::header::lemma_ne_at(c, seq!['O', 'C', 'T', '/', 'F', 'P'], 1);
            crate::header::lemma_ne_len(c, seq!['O', 'C', 'T']);
            crate::header::lemma_ne_len(c, seq!['F', 'P']);
            assert(gameplay_text(h).0.drop_first() =~= c);
        },
        BmsHeaderGameplay::ChangeOption { id, value: v } => {
            let c = seq!['C', 'H', 'A', 'N', 'G', 'E', 'O', 'P', 'T', 'I', 'O', 'N'] + crate::index::ascii_text(id.0@);
            assert(c.take(12) =~= seq!['C', 'H', 'A', 'N', 'G', 'E', 'O', 'P', 'T', 'I', 'O', 'N']);
            assert(c.skip(12) =~= crate::index::ascii_text(id.0@));
            crate::index::lemma_index_text_roundtrip(id.0);
            crate::header::lemma_ne_len(c, seq!['P', 'L', 'A', 'Y', 'E', 'R']);
            crate::header::lemma_ne_len(c, seq!['R', 'A', 'N', 'K']);
            crate::header::lemma_ne_len(c, seq!['D', 'E', 'F', 'E', 'X', 'R', 'A', 'N', 'K']);
            assert(!crate::header::cmd_has_id(c, seq!['E', 'X', 'R', 'A', 'N', 'K']));
            crate::header::lemma_ne_len(c, seq!['T', 'O', 'T', 'A', 'L']);
            crate::header::lemma_ne_len(c, seq!['V', 'O', 'L', 'W', 'A', 'V']);
            crate::header::lemma_ne_len(c, seq!['L', 'N', 'T', 'Y', 'P', 'E']);
            crate::header::lemma_ne_len(c, seq!['L', 'N', 'O', 'B', 'J']);
            crate::header::lemma_ne_len(c, seq!['L', 'N', 'M', 'O', 'D', 'E']);
            crate::header::lemma_ne_len(c, seq!['O', 'C', 'T', '/', 'F', 'P']);
            crate::header::lemma_ne_len(c, seq!['O', 'C', 'T']);
            crate::header::lemma_ne_len(c, seq!['F', 'P']);
            crate::header::lemma_ne_len(c, seq!['O', 'P', 'T', 'I', 'O', 'N']);
            assert(gameplay_text(h).0.drop_first() =~= c);
        },
        BmsHeaderGameplay::Base(v) => {
            let c = seq!['B', 'A', 'S', 'E'];
            crate::header::lemma_ne_len(c, seq!['P', 'L', 'A', 'Y', 'E', 'R']);
            crate::header::lemma_ne_at(c, seq!['R', 'A', 'N', 'K'], 0);
            crate::header::lemma_ne_len(c, seq!['D', 'E', 'F', 'E', 'X', 'R', 'A', 'N', 'K']);
            assert(!crate::header::cmd_has_id(c, seq!['E', 'X', 'R', 'A', 'N', 'K']));
            crate::header::lemma_ne_len(c, seq!['T', 'O', 'T', 'A', 'L']);
            crate::header::lemma_ne_len(c, seq!['V', 'O', 'L', 'W', 'A', 'V']);
            crate::header::lemma_ne_len(c, seq!['L', 'N', 'T', 'Y', 'P', 'E']);
            crate::header::lemma_ne_len(c, seq!['L', 'N', 'O', 'B', 'J']);
            crate::header::lemma_ne_len(c, seq!['L', 'N', 'M', 'O', 'D', 'E']);
            crate::header::lemma_ne_len(c, seq!['O', 'C', 'T', '/', 'F', 'P']);
            crate::header::lemma_ne_len(c, seq!['O', 'C', 'T']);
            crate::header::lemma_ne_len(c, seq!['F', 'P']);
            crate::header::lemma_ne_len(c, seq!['O', 'P', 'T', 'I', 'O', 'N']);
            assert(!crate::header::cmd_has_id(c, seq!['C', 'H', 'A', 'N', 'G', 'E', 'O', 'P', 'T', 'I', 'O', 'N']));
            assert(gameplay_text(h).0.drop_first() =~= c);
        },
    }
}

} // verus!
