//! Timing headers: `#BPM`, `#BPMxx` / `#EXBPMxx`, `#BASEBPM`, `#STOPxx`,
//! `#SCROLLxx`, `#SPEEDxx`, `#STP`.

use vstd::prelude::*;

use crate::error::{outcome_view, BmsTokenizeError};
use crate::header::cmd_has_id;
use crate::text::{eq_ignore_case, is_float_literal};
use crate::index::{index_from_text, index_text_ok, BmsIndex, BpmIndex, ScrollIndex, SpeedIndex, StopIndex};
use crate::params::{stp_of, StpParams};

verus! {

/// Timing headers.  Tempos and durations are kept as their floating-point
/// literals.
#[derive(Debug, Clone, PartialEq)]
pub enum BmsHeaderTiming<C = String> {
    /// `#BPM`: the initial tempo.
    Bpm(C),
    /// `#BPM{id}`: an extended tempo for channel `08`.
    BpmDef {
        /// The index.
        id: BpmIndex,
        /// The value.
        value: C,
    },
    /// `#BASEBPM`: the reference tempo.
    BaseBpm(C),
    /// `#STOP{id}`: a stop length for channel `09`.
    StopDef {
        /// The index.
        id: StopIndex,
        /// The value.
        value: C,
    },
    /// `#SCROLL{id}`: a scroll speed for channel `SC`.
    ScrollDef {
        /// The index.
        id: ScrollIndex,
        /// The value.
        value: C,
    },
    /// `#SPEED{id}`: a note spacing for channel `SP`.
    SpeedDef {
        /// The index.
        id: SpeedIndex,
        /// The value.
        value: C,
    },
    /// `#EXBPM{id}`: an extended tempo.
    ExBpm {
        /// The index.
        id: BpmIndex,
        /// The value.
        value: C,
    },
    /// `#STP`: a stop at a point of a measure.
    Stp {
        /// The value.
        params: StpParams<C>,
    },
}

impl View for BmsHeaderTiming<String> {
    type V = BmsHeaderTiming<Seq<char>>;

    open spec fn view(&self) -> BmsHeaderTiming<Seq<char>> {
        match self {
            BmsHeaderTiming::Bpm(x) => BmsHeaderTiming::Bpm(x@),
            BmsHeaderTiming::BpmDef { id, value } => BmsHeaderTiming::BpmDef { id: *id, value: value@ },
            BmsHeaderTiming::BaseBpm(x) => BmsHeaderTiming::BaseBpm(x@),
            BmsHeaderTiming::StopDef { id, value } => BmsHeaderTiming::StopDef { id: *id, value: value@ },
            BmsHeaderTiming::ScrollDef { id, value } => BmsHeaderTiming::ScrollDef { id: *id, value: value@ },
            BmsHeaderTiming::SpeedDef { id, value } => BmsHeaderTiming::SpeedDef { id: *id, value: value@ },
            BmsHeaderTiming::ExBpm { id, value } => BmsHeaderTiming::ExBpm { id: *id, value: value@ },
            BmsHeaderTiming::Stp { params } => BmsHeaderTiming::Stp { params: params@ },
        }
    }
}

/// The header that `cmd` and `val` denote among the BmsHeaderTiming patterns, in
/// declaration order: `Ok(None)` when none matches.
pub open spec fn timing_of(cmd: Seq<char>, val: Seq<char>) -> Result<
    Option<BmsHeaderTiming<Seq<char>>>,
    BmsTokenizeError<Seq<char>>,
> {
    if eq_ignore_case(cmd, seq!['B', 'P', 'M']) {
        if is_float_literal(val) {
            Ok(Some(BmsHeaderTiming::Bpm(val)))
        } else {
            Err(BmsTokenizeError::InvalidFloat { value: val })
        }
    } else if cmd_has_id(cmd, seq!['B', 'P', 'M']) {
        if index_text_ok(cmd.skip(3)) {
            if is_float_literal(val) {
            Ok(Some(BmsHeaderTiming::BpmDef { id: BpmIndex(index_from_text(cmd.skip(3))), value: val }))
        } else {
            Err(BmsTokenizeError::InvalidFloat { value: val })
        }
        } else {
            Err(BmsTokenizeError::InvalidInteger { value: cmd.skip(3) })
        }
    } else if eq_ignore_case(cmd, seq!['B', 'A', 'S', 'E', 'B', 'P', 'M']) {
        if is_float_literal(val) {
            Ok(Some(BmsHeaderTiming::BaseBpm(val)))
        } else {
            Err(BmsTokenizeError::InvalidFloat { value: val })
        }
    } else if cmd_has_id(cmd, seq!['S', 'T', 'O', 'P']) {
        if index_text_ok(cmd.skip(4)) {
            if is_float_literal(val) {
            Ok(Some(BmsHeaderTiming::StopDef { id: StopIndex(index_from_text(cmd.skip(4))), value: val }))
        } else {
            Err(BmsTokenizeError::InvalidFloat { value: val })
        }
        } else {
            Err(BmsTokenizeError::InvalidInteger { value: cmd.skip(4) })
        }
    } else if cmd_has_id(cmd, seq!['S', 'C', 'R', 'O', 'L', 'L']) {
        if index_text_ok(cmd.skip(6)) {
            if is_float_literal(val) {
            Ok(Some(BmsHeaderTiming::ScrollDef { id: ScrollIndex(index_from_text(cmd.skip(6))), value: val }))
        } else {
            Err(BmsTokenizeError::InvalidFloat { value: val })
        }
        } else {
            Err(BmsTokenizeError::InvalidInteger { value: cmd.skip(6) })
        }
    } else if cmd_has_id(cmd, seq!['S', 'P', 'E', 'E', 'D']) {
        if index_text_ok(cmd.skip(5)) {
            if is_float_literal(val) {
            Ok(Some(BmsHeaderTiming::SpeedDef { id: SpeedIndex(index_from_text(cmd.skip(5))), value: val }))
        } else {
            Err(BmsTokenizeError::InvalidFloat { value: val })
        }
        } else {
            Err(BmsTokenizeError::InvalidInteger { value: cmd.skip(5) })
        }
    } else if cmd_has_id(cmd, seq!['E', 'X', 'B', 'P', 'M']) {
        if index_text_ok(cmd.skip(5)) {
            if is_float_literal(val) {
            Ok(Some(BmsHeaderTiming::ExBpm { id: BpmIndex(index_from_text(cmd.skip(5))), value: val }))
        } else {
            Err(BmsTokenizeError::InvalidFloat { value: val })
        }
        } else {
            Err(BmsTokenizeError::InvalidInteger { value: cmd.skip(5) })
        }
    } else if eq_ignore_case(cmd, seq!['S', 'T', 'P']) && stp_of(val) is Some {
        Ok(Some(BmsHeaderTiming::Stp { params: stp_of(val).unwrap() }))
    } else {
        Ok(None)
    }
}

impl BmsHeaderTiming<String> {

    /// Matches a command name and a value against this group's patterns.
    pub fn try_match_header(cmd: &str, val: &str) -> (r: Result<Option<Self>, BmsTokenizeError<String>>)
        ensures
            outcome_view(r) == timing_of(cmd@, val@),
    {
        let c = crate::text::chars_of(cmd);
        let v = crate::text::chars_of(val);
        Self::match_chars(&c, &v)
    }
    /// Matches a command name and value against the BmsHeaderTiming patterns.
    pub fn match_chars(cmd: &[char], val: &[char]) -> (r: Result<
        Option<Self>,
        BmsTokenizeError<String>,
    >)
        ensures
            outcome_view(r) == timing_of(cmd@, val@),
    {
        let n = cmd.len();
        proof {
            assert(cmd@.subrange(0, n as int) =~= cmd@);
            assert(val@.subrange(0, val@.len() as int) =~= val@);
        }
        if crate::text::range_eq_ignore_case(cmd, 0, n, &['B', 'P', 'M']) {
            if crate::text::float_literal_ok(val, 0, val.len()) {
                return Ok(Some(BmsHeaderTiming::Bpm(crate::text::string_from(val))));
            } else {
                return Err(BmsTokenizeError::InvalidFloat { value: crate::text::string_from(val) });
            }
        }
        if n > 3 && n <= 5 && crate::text::range_eq_ignore_case(cmd, 0, 3, &['B', 'P', 'M']) {
            let i = match BmsIndex::parse_chars(cmd, 3, n) {
                Some(i) => i,
                None => {
                    return Err(
                        BmsTokenizeError::InvalidInteger {
                            value: crate::text::string_from_range(cmd, 3, n),
                        },
                    );
                },
            };
            if crate::text::float_literal_ok(val, 0, val.len()) {
                return Ok(Some(BmsHeaderTiming::BpmDef { id: BpmIndex(i), value: crate::text::string_from(val) }));
            } else {
                return Err(BmsTokenizeError::InvalidFloat { value: crate::text::string_from(val) });
            }
        }
        if crate::text::range_eq_ignore_case(cmd, 0, n, &['B', 'A', 'S', 'E', 'B', 'P', 'M']) {
            if crate::text::float_literal_ok(val, 0, val.len()) {
                return Ok(Some(BmsHeaderTiming::BaseBpm(crate::text::string_from(val))));
            } else {
                return Err(BmsTokenizeError::InvalidFloat { value: crate::text::string_from(val) });
            }
        }
        if n > 4 && n <= 6 && crate::text::range_eq_ignore_case(cmd, 0, 4, &['S', 'T', 'O', 'P']) {
            let i = match BmsIndex::parse_chars(cmd, 4, n) {
                Some(i) => i,
                None => {
                    return Err(
                        BmsTokenizeError::InvalidInteger {
                            value: crate::text::string_from_range(cmd, 4, n),
                        },
                    );
                },
            };
            if crate::text::float_literal_ok(val, 0, val.len()) {
                return Ok(Some(BmsHeaderTiming::StopDef { id: StopIndex(i), value: crate::text::string_from(val) }));
            } else {
                return Err(BmsTokenizeError::InvalidFloat { value: crate::text::string_from(val) });
            }
        }
        if n > 6 && n <= 8 && crate::text::range_eq_ignore_case(cmd, 0, 6, &['S', 'C', 'R', 'O', 'L', 'L']) {
            let i = match BmsIndex::parse_chars(cmd, 6, n) {
                Some(i) => i,
                None => {
                    return Err(
                        BmsTokenizeError::InvalidInteger {
                            value: crate::text::string_from_range(cmd, 6, n),
                        },
                    );
                },
            };
            if crate::text::float_literal_ok(val, 0, val.len()) {
                return Ok(Some(BmsHeaderTiming::ScrollDef { id: ScrollIndex(i), value: crate::text::string_from(val) }));
            } else {
                return Err(BmsTokenizeError::InvalidFloat { value: crate::text::string_from(val) });
            }
        }
        if n > 5 && n <= 7 && crate::text::range_eq_ignore_case(cmd, 0, 5, &['S', 'P', 'E', 'E', 'D']) {
            let i = match BmsIndex::parse_chars(cmd, 5, n) {
                Some(i) => i,
                None => {
                    return Err(
                        BmsTokenizeError::InvalidInteger {
                            value: crate::text::string_from_range(cmd, 5, n),
                        },
                    );
                },
            };
            if crate::text::float_literal_ok(val, 0, val.len()) {
                return Ok(Some(BmsHeaderTiming::SpeedDef { id: SpeedIndex(i), value: crate::text::string_from(val) }));
            } else {
                return Err(BmsTokenizeError::InvalidFloat { value: crate::text::string_from(val) });
            }
        }
        if n > 5 && n <= 7 && crate::text::range_eq_ignore_case(cmd, 0, 5, &['E', 'X', 'B', 'P', 'M']) {
            let i = match BmsIndex::parse_chars(cmd, 5, n) {
                Some(i) => i,
                None => {
                    return Err(
                        BmsTokenizeError::InvalidInteger {
                            value: crate::text::string_from_range(cmd, 5, n),
                        },
                    );
                },
            };
            if crate::text::float_literal_ok(val, 0, val.len()) {
                return Ok(Some(BmsHeaderTiming::ExBpm { id: BpmIndex(i), value: crate::text::string_from(val) }));
            } else {
                return Err(BmsTokenizeError::InvalidFloat { value: crate::text::string_from(val) });
            }
        }
        if crate::text::range_eq_ignore_case(cmd, 0, n, &['S', 'T', 'P']) {
            if let Some(p) = StpParams::from_chars(val, 0, val.len()) {
                return Ok(Some(BmsHeaderTiming::Stp { params: p }));
            }
        }
        Ok(None)
    }
}

/// The command and the value of a header of this group as a BMS file writes
/// them: the command with its prefix (`%` for `URL` and `EMAIL`, `#`
/// otherwise), its first spelling and its index, and the value's text.
pub open spec fn timing_text(h: BmsHeaderTiming<Seq<char>>) -> (Seq<char>, Seq<char>) {
    match h {
        BmsHeaderTiming::Bpm(v) => (seq!['#', 'B', 'P', 'M'], crate::text::float_text(v)),
        BmsHeaderTiming::BpmDef { id, value } => (seq!['#', 'B', 'P', 'M'] + crate::index::ascii_text(id.0@), crate::text::float_text(value)),
        BmsHeaderTiming::BaseBpm(v) => (seq!['#', 'B', 'A', 'S', 'E', 'B', 'P', 'M'], crate::text::float_text(v)),
        BmsHeaderTiming::StopDef { id, value } => (seq!['#', 'S', 'T', 'O', 'P'] + crate::index::ascii_text(id.0@), crate::text::float_text(value)),
        BmsHeaderTiming::ScrollDef { id, value } => (seq!['#', 'S', 'C', 'R', 'O', 'L', 'L'] + crate::index::ascii_text(id.0@), crate::text::float_text(value)),
        BmsHeaderTiming::SpeedDef { id, value } => (seq!['#', 'S', 'P', 'E', 'E', 'D'] + crate::index::ascii_text(id.0@), crate::text::float_text(value)),
        BmsHeaderTiming::ExBpm { id, value } => (seq!['#', 'E', 'X', 'B', 'P', 'M'] + crate::index::ascii_text(id.0@), crate::text::float_text(value)),
        BmsHeaderTiming::Stp { params } => (seq!['#', 'S', 'T', 'P'], crate::params::stp_text(params)),
    }
}

impl BmsHeaderTiming<String> {
    /// The command and the value of this header (see [`timing_text`]).
    pub fn format_header(&self) -> (r: (String, String))
        ensures
            (r.0@, r.1@) == timing_text(self@),
    {
        match self {
            BmsHeaderTiming::Bpm(v) => (crate::text::string_from(&['#', 'B', 'P', 'M']), crate::text::string_from(&crate::text::float_text_exec(&crate::text::chars_of(v.as_str())))),
            BmsHeaderTiming::BpmDef { id, value } => (crate::header::cmd_with_id(&['#', 'B', 'P', 'M'], &id.0), crate::text::string_from(&crate::text::float_text_exec(&crate::text::chars_of(value.as_str())))),
            BmsHeaderTiming::BaseBpm(v) => (crate::text::string_from(&['#', 'B', 'A', 'S', 'E', 'B', 'P', 'M']), crate::text::string_from(&crate::text::float_text_exec(&crate::text::chars_of(v.as_str())))),
            BmsHeaderTiming::StopDef { id, value } => (crate::header::cmd_with_id(&['#', 'S', 'T', 'O', 'P'], &id.0), crate::text::string_from(&crate::text::float_text_exec(&crate::text::chars_of(value.as_str())))),
            BmsHeaderTiming::ScrollDef { id, value } => (crate::header::cmd_with_id(&['#', 'S', 'C', 'R', 'O', 'L', 'L'], &id.0), crate::text::string_from(&crate::text::float_text_exec(&crate::text::chars_of(value.as_str())))),
            BmsHeaderTiming::SpeedDef { id, value } => (crate::header::cmd_with_id(&['#', 'S', 'P', 'E', 'E', 'D'], &id.0), crate::text::string_from(&crate::text::float_text_exec(&crate::text::chars_of(value.as_str())))),
            BmsHeaderTiming::ExBpm { id, value } => (crate::header::cmd_with_id(&['#', 'E', 'X', 'B', 'P', 'M'], &id.0), crate::text::string_from(&crate::text::float_text_exec(&crate::text::chars_of(value.as_str())))),
            BmsHeaderTiming::Stp { params } => (crate::text::string_from(&['#', 'S', 'T', 'P']), params.to_string()),
        }
    }
}

/// Writing a header of this group and reading back its command (after the
/// prefix) and its value gives the same header,
/// for a header that reading can give: valid indices, number literals in
/// the form that writing gives them, and an `#STP` value as reading gives
/// it.
pub proof fn lemma_timing_roundtrip(h: BmsHeaderTiming<Seq<char>>)
    requires
        (h matches BmsHeaderTiming::Bpm(v) ==> crate::text::canonical_float(v)),
        (h matches BmsHeaderTiming::BpmDef { id, .. } ==> crate::index::index_text_ok(crate::index::ascii_text(id.0@))),
        (h matches BmsHeaderTiming::BpmDef { value: v, .. } ==> crate::text::canonical_float(v)),
        (h matches BmsHeaderTiming::BaseBpm(v) ==> crate::text::canonical_float(v)),
        (h matches BmsHeaderTiming::StopDef { id, .. } ==> crate::index::index_text_ok(crate::index::ascii_text(id.0@))),
        (h matches BmsHeaderTiming::StopDef { value: v, .. } ==> crate::text::canonical_float(v)),
        (h matches BmsHeaderTiming::ScrollDef { id, .. } ==> crate::index::index_text_ok(crate::index::ascii_text(id.0@))),
        (h matches BmsHeaderTiming::ScrollDef { value: v, .. } ==> crate::text::canonical_float(v)),
        (h matches BmsHeaderTiming::SpeedDef { id, .. } ==> crate::index::index_text_ok(crate::index::ascii_text(id.0@))),
        (h matches BmsHeaderTiming::SpeedDef { value: v, .. } ==> crate::text::canonical_float(v)),
        (h matches BmsHeaderTiming::ExBpm { id, .. } ==> crate::index::index_text_ok(crate::index::ascii_text(id.0@))),
        (h matches BmsHeaderTiming::ExBpm { value: v, .. } ==> crate::text::canonical_float(v)),
        (h matches BmsHeaderTiming::Stp { params: v } ==> crate::params::stp_reads_back(v)),
    ensures
        timing_of(timing_text(h).0.drop_first(), timing_text(h).1) == Ok::<Option<BmsHeaderTiming<Seq<char>>>, crate::error::BmsTokenizeError<Seq<char>>>(Some(h)),
{
    match h {
        BmsHeaderTiming::Bpm(v) => {
            let c = seq!['B', 'P', 'M'];
            assert(timing_text(h).0.drop_first() =~= c);
        },
        BmsHeaderTiming::BpmDef { id, value: v } => {
            let c = seq!['B', 'P', 'M'] + crate::index::ascii_text(id.0@);
            assert(c.take(3) =~= seq!['B', 'P', 'M']);
            assert(c.skip(3) =~= crate::index::ascii_text(id.0@));
            crate::index::lemma_index_text_roundtrip(id.0);
            crate::header::lemma_ne_len(c, seq!['B', 'P', 'M']);
            assert(timing_text(h).0.drop_first() =~= c);
        },
        BmsHeaderTiming::BaseBpm(v) => {
            let c = seq!['B', 'A', 'S', 'E', 'B', 'P', 'M'];
            crate::header::lemma_ne_len(c, seq!['B', 'P', 'M']);
            assert(!crate::header::cmd_has_id(c, seq!['B', 'P', 'M']));
            assert(timing_text(h).0.drop_first() =~= c);
        },
        BmsHeaderTiming::StopDef { id, value: v } => {
            let c = seq!['S', 'T', 'O', 'P'] + crate::index::ascii_text(id.0@);
            assert(c.take(4) =~= seq!['S', 'T', 'O', 'P']);
            assert(c.skip(4) =~= crate::index::ascii_text(id.0@));
            crate::index::lemma_index_text_roundtrip(id.0);
            crate::header::lemma_ne_len(c, seq!['B', 'P', 'M']);
            assert(c.take(3)[0] == c[0]);
            crate::header::lemma_ne_at(c.take(3), seq!['B', 'P', 'M'], 0);
            crate::header::lemma_ne_len(c, seq!['B', 'A', 'S', 'E', 'B', 'P', 'M']);
            assert(timing_text(h).0.drop_first() =~= c);
        },
        BmsHeaderTiming::ScrollDef { id, value: v } => {
            let c = seq!['S', 'C', 'R', 'O', 'L', 'L'] + crate::index::ascii_text(id.0@);
            assert(c.take(6) =~= seq!['S', 'C', 'R', 'O', 'L', 'L']);
            assert(c.skip(6) =~= crate::index::ascii_text(id.0@));
            crate::index::lemma_index_text_roundtrip(id.0);
            crate::header::lemma_ne_len(c, seq!['B', 'P', 'M']);
            assert(!crate::header::cmd_has_id(c, seq!['B', 'P', 'M']));
            if c.len() == 7 { crate::header::lemma_ne_at(c, seq!['B', 'A', 'S', 'E', 'B', 'P', 'M'], 0); } else { crate::header::lemma_ne_len(c, seq!['B', 'A', 'S', 'E', 'B', 'P', 'M']); }
            assert(!crate::header::cmd_has_id(c, seq!['S', 'T', 'O', 'P']));
            assert(timing_text(h).0.drop_first() =~= c);
        },
        BmsHeaderTiming::SpeedDef { id, value: v } => {
            let c = seq!['S', 'P', 'E', 'E', 'D'] + crate::index::ascii_text(id.0@);
            assert(c.take(5) =~= seq!['S', 'P', 'E', 'E', 'D']);
            assert(c.skip(5) =~= crate::index::ascii_text(id.0@));
            crate::index::lemma_index_text_roundtrip(id.0);
            crate::header::lemma_ne_len(c, seq!['B', 'P', 'M']);
            assert(!crate::header::cmd_has_id(c, seq!['B', 'P', 'M']));
            if c.len() == 7 { crate::header::lemma_ne_at(c, seq!['B', 'A', 'S', 'E', 'B', 'P', 'M'], 0); } else { crate::header::lemma_ne_len(c, seq!['B', 'A', 'S', 'E', 'B', 'P', 'M']); }
            assert(c.take(4)[1] == c[1]);
            crate::header::lemma_ne_at(c.take(4), seq!['S', 'T', 'O', 'P'], 1);
            assert(c.take(6)[1] == c[1]);
            crate::header::lemma_ne_at(c.take(6), seq!['S', 'C', 'R', 'O', 'L', 'L'], 1);
            assert(timing_text(h).0.drop_first() =~= c);
        },
        BmsHeaderTiming::ExBpm { id, value: v } => {
            let c = seq!['E', 'X', 'B', 'P', 'M'] + crate::index::ascii_text(id.0@);
            assert(c.take(5) =~= seq!['E', 'X', 'B', 'P', 'M']);
            assert(c.skip(5) =~= crate::index::ascii_text(id.0@));
            crate::index::lemma_index_text_roundtrip(id.0);
            crate::header::lemma_ne_len(c, seq!['B', 'P', 'M']);
            assert(!crate::header::cmd_has_id(c, seq!['B', 'P', 'M']));
            if c.len() == 7 { crate::header::lemma_ne_at(c, seq!['B', 'A', 'S', 'E', 'B', 'P', 'M'], 0); } else { crate::header::lemma_ne_len(c, seq!['B', 'A', 'S', 'E', 'B', 'P', 'M']); }
            assert(c.take(4)[0] == c[0]);
            crate::header::lemma_ne_at(c.take(4), seq!['S', 'T', 'O', 'P'], 0);
            assert(c.take(6)[0] == c[0]);
            crate::header::lemma_ne_at(c.take(6), seq!['S', 'C', 'R', 'O', 'L', 'L'], 0);
            assert(c.take(5)[0] == c[0]);
            crate::header::lemma_ne_at(c.take(5), seq!['S', 'P', 'E', 'E', 'D'], 0);
            assert(timing_text(h).0.drop_first() =~= c);
        },
        BmsHeaderTiming::Stp { params: v } => {
            let c = seq!['S', 'T', 'P'];
            crate::header::lemma_ne_at(c, seq!['B', 'P', 'M'], 0);
            assert(!crate::header::cmd_has_id(c, seq!['B', 'P', 'M']));
            crate::header::lemma_ne_len(c, seq!['B', 'A', 'S', 'E', 'B', 'P', 'M']);
            assert(!crate::header::cmd_has_id(c, seq!['S', 'T', 'O', 'P']));
            assert(!crate::header::cmd_has_id(c, seq!['S', 'C', 'R', 'O', 'L', 'L']));
            assert(!crate::header::cmd_has_id(c, seq!['S', 'P', 'E', 'E', 'D']));
            assert(!crate::header::cmd_has_id(c, seq!['E', 'X', 'B', 'P', 'M']));
            crate::params::lemma_stp_roundtrip(v);
            assert(timing_text(h).0.drop_first() =~= c);
        },
    }
}

} // verus!
