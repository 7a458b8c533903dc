//! `#RANDOM` / `#SWITCH` control flow.

use vstd::prelude::*;

use crate::error::{outcome_view, BmsTokenizeError};
use crate::text::{eq_ignore_case, parse_int};

verus! {

/// Control-flow headers for random chart branches.
///
/// `#RANDOM n` … `#IF k` … `#ENDIF` … `#ENDRANDOM` and `#SWITCH n` …
/// `#CASE k` … `#DEF` … `#ENDSW`.  The tokenizer keeps every branch; choosing
/// one is left to later stages.
#[derive(Debug, Clone, PartialEq)]
pub enum BmsHeaderControlFlow {
    /// `#RANDOM n` (or `#RONDAM`): opens a random block of `n` branches.
    Random(u64),
    /// `#SETRANDOM n`: forces the random value.
    SetRandom(u64),
    /// `#ENDRANDOM`: closes a random block.
    EndRandom,
    /// `#IF n`: a branch taken when the value is `n`.
    If(u64),
    /// `#ELSEIF n`: an alternative branch.
    ElseIf(u64),
    /// `#ELSE`: the branch taken when no `#IF` matched.
    Else,
    /// `#ENDIF` (also `#END IF`, `#END`, `#IFEND`): closes a branch chain.
    EndIf,
    /// `#SWITCH n`: opens a switch block.
    Switch(u64),
    /// `#SETSWITCH n`: forces the switch value.
    SetSwitch(u64),
    /// `#ENDSW` / `#ENDSWITCH`: closes a switch block.
    EndSwitch,
    /// `#CASE n`: a branch taken when the switch value is `n`.
    Case(u64),
    /// `#SKIP`: leaves the switch block.
    Skip,
    /// `#DEF`: the default branch of a switch block.
    Def,
}

impl View for BmsHeaderControlFlow {
    type V = BmsHeaderControlFlow;

    open spec fn view(&self) -> BmsHeaderControlFlow {
        *self
    }
}

/// The header that `cmd` and `val` denote among the BmsHeaderControlFlow patterns, in
/// declaration order: `Ok(None)` when none matches.
pub open spec fn control_flow_of(cmd: Seq<char>, val: Seq<char>) -> Result<
    Option<BmsHeaderControlFlow>,
    BmsTokenizeError<Seq<char>>,
> {
    if eq_ignore_case(cmd, seq!['R', 'A', 'N', 'D', 'O', 'M']) {
        match parse_int(val, false, 0, u64::MAX as int) {
            Some(v) => Ok(Some(BmsHeaderControlFlow::Random(v as u64))),
            None => Err(BmsTokenizeError::InvalidInteger { value: val }),
        }
    } else if eq_ignore_case(cmd, seq!['R', 'O', 'N', 'D', 'A', 'M']) {
        match parse_int(val, false, 0, u64::MAX as int) {
            Some(v) => Ok(Some(BmsHeaderControlFlow::Random(v as u64))),
            None => Err(BmsTokenizeError::InvalidInteger { value: val }),
        }
    } else if eq_ignore_case(cmd, seq!['S', 'E', 'T', 'R', 'A', 'N', 'D', 'O', 'M']) {
        match parse_int(val, false, 0, u64::MAX as int) {
            Some(v) => Ok(Some(BmsHeaderControlFlow::SetRandom(v as u64))),
            None => Err(BmsTokenizeError::InvalidInteger { value: val }),
        }
    } else if eq_ignore_case(cmd, seq!['E', 'N', 'D', 'R', 'A', 'N', 'D', 'O', 'M']) {
        Ok(Some(BmsHeaderControlFlow::EndRandom))
    } else if eq_ignore_case(cmd, seq!['I', 'F']) {
        match parse_int(val, false, 0, u64::MAX as int) {
            Some(v) => Ok(Some(BmsHeaderControlFlow::If(v as u64))),
            None => Err(BmsTokenizeError::InvalidInteger { value: val }),
        }
    } else if eq_ignore_case(cmd, seq!['E', 'L', 'S', 'E', 'I', 'F']) {
        match parse_int(val, false, 0, u64::MAX as int) {
            Some(v) => Ok(Some(BmsHeaderControlFlow::ElseIf(v as u64))),
            None => Err(BmsTokenizeError::InvalidInteger { value: val }),
        }
    } else if eq_ignore_case(cmd, seq!['E', 'L', 'S', 'E']) {
        Ok(Some(BmsHeaderControlFlow::Else))
    } else if eq_ignore_case(cmd, seq!['E', 'N', 'D', 'I', 'F']) {
        Ok(Some(BmsHeaderControlFlow::EndIf))
    } else if eq_ignore_case(cmd, seq!['E', 'N', 'D']) {
        Ok(Some(BmsHeaderControlFlow::EndIf))
    } else if eq_ignore_case(cmd, seq!['I', 'F', 'E', 'N', 'D']) {
        Ok(Some(BmsHeaderControlFlow::EndIf))
    } else if eq_ignore_case(cmd, seq!['S', 'W', 'I', 'T', 'C', 'H']) {
        match parse_int(val, false, 0, u64::MAX as int) {
            Some(v) => Ok(Some(BmsHeaderControlFlow::Switch(v as u64))),
            None => Err(BmsTokenizeError::InvalidInteger { value: val }),
        }
    } else if eq_ignore_case(cmd, seq!['S', 'E', 'T', 'S', 'W', 'I', 'T', 'C', 'H']) {
        match parse_int(val, false, 0, u64::MAX as int) {
            Some(v) => Ok(Some(BmsHeaderControlFlow::SetSwitch(v as u64))),
            None => Err(BmsTokenizeError::InvalidInteger { value: val }),
        }
    } else if eq_ignore_case(cmd, seq!['E', 'N', 'D', 'S', 'W']) {
        Ok(Some(BmsHeaderControlFlow::EndSwitch))
    } else if eq_ignore_case(cmd, seq!['E', 'N', 'D', 'S', 'W', 'I', 'T', 'C', 'H']) {
        Ok(Some(BmsHeaderControlFlow::EndSwitch))
    } else if eq_ignore_case(cmd, seq!['C', 'A', 'S', 'E']) {
        match parse_int(val, false, 0, u64::MAX as int) {
            Some(v) => Ok(Some(BmsHeaderControlFlow::Case(v as u64))),
            None => Err(BmsTokenizeError::InvalidInteger { value: val }),
        }
    } else if eq_ignore_case(cmd, seq!['S', 'K', 'I', 'P']) {
        Ok(Some(BmsHeaderControlFlow::Skip))
    } else if eq_ignore_case(cmd, seq!['D', 'E', 'F']) {
        Ok(Some(BmsHeaderControlFlow::Def))
    } else {
        Ok(None)
    }
}

impl BmsHeaderControlFlow {

    /// Matches a command name and a value against this group's patterns.
    pub fn try_match_header(cmd: &str, val: &str) -> (r: Result<Option<Self>, BmsTokenizeError<String>>)
        ensures
            outcome_view(r) == control_flow_of(cmd@, val@),
    {
        let c = crate::text::chars_of(cmd);
        let v = crate::text::chars_of(val);
        Self::match_chars(&c, &v)
    }
    /// Matches a command name and value against the BmsHeaderControlFlow patterns.
    pub fn match_chars(cmd: &[char], val: &[char]) -> (r: Result<
        Option<Self>,
        BmsTokenizeError<String>,
    >)
        ensures
            outcome_view(r) == control_flow_of(cmd@, val@),
    {
        let n = cmd.len();
        proof {
            assert(cmd@.subrange(0, n as int) =~= cmd@);
            assert(val@.subrange(0, val@.len() as int) =~= val@);
        }
        if crate::text::range_eq_ignore_case(cmd, 0, n, &['R', 'A', 'N', 'D', 'O', 'M']) {
            match crate::text::parse_unsigned(val, 0, val.len(), u64::MAX) {
                Some(v) => {
                    return Ok(Some(BmsHeaderControlFlow::Random(v)));
                },
                None => {
                    return Err(BmsTokenizeError::InvalidInteger { value: crate::text::string_from(val) });
                },
            }
        }
        if crate::text::range_eq_ignore_case(cmd, 0, n, &['R', 'O', 'N', 'D', 'A', 'M']) {
            match crate::text::parse_unsigned(val, 0, val.len(), u64::MAX) {
                Some(v) => {
                    return Ok(Some(BmsHeaderControlFlow::Random(v)));
                },
                None => {
                    return Err(BmsTokenizeError::InvalidInteger { value: crate::text::string_from(val) });
                },
            }
        }
        if crate::text::range_eq_ignore_case(cmd, 0, n, &['S', 'E', 'T', 'R', 'A', 'N', 'D', 'O', 'M']) {
            match crate::text::parse_unsigned(val, 0, val.len(), u64::MAX) {
                Some(v) => {
                    return Ok(Some(BmsHeaderControlFlow::SetRandom(v)));
                },
                None => {
                    return Err(BmsTokenizeError::InvalidInteger { value: crate::text::string_from(val) });
                },
            }
        }
        if crate::text::range_eq_ignore_case(cmd, 0, n, &['E', 'N', 'D', 'R', 'A', 'N', 'D', 'O', 'M']) {
            return Ok(Some(BmsHeaderControlFlow::EndRandom));
        }
        if crate::text::range_eq_ignore_case(cmd, 0, n, &['I', 'F']) {
            match crate::text::parse_unsigned(val, 0, val.len(), u64::MAX) {
                Some(v) => {
                    return Ok(Some(BmsHeaderControlFlow::If(v)));
                },
                None => {
                    return Err(BmsTokenizeError::InvalidInteger { value: crate::text::string_from(val) });
                },
            }
        }
        if crate::text::range_eq_ignore_case(cmd, 0, n, &['E', 'L', 'S', 'E', 'I', 'F']) {
            match crate::text::parse_unsigned(val, 0, val.len(), u64::MAX) {
                Some(v) => {
                    return Ok(Some(BmsHeaderControlFlow::ElseIf(v)));
                },
                None => {
                    return Err(BmsTokenizeError::InvalidInteger { value: crate::text::string_from(val) });
                },
            }
        }
        if crate::text::range_eq_ignore_case(cmd, 0, n, &['E', 'L', 'S', 'E']) {
            return Ok(Some(BmsHeaderControlFlow::Else));
        }
        if crate::text::range_eq_ignore_case(cmd, 0, n, &['E', 'N', 'D', 'I', 'F']) {
            return Ok(Some(BmsHeaderControlFlow::EndIf));
        }
        if crate::text::range_eq_ignore_case(cmd, 0, n, &['E', 'N', 'D']) {
            return Ok(Some(BmsHeaderControlFlow::EndIf));
        }
        if crate::text::range_eq_ignore_case(cmd, 0, n, &['I', 'F', 'E', 'N', 'D']) {
            return Ok(Some(BmsHeaderControlFlow::EndIf));
        }
        if crate::text::range_eq_ignore_case(cmd, 0, n, &['S', 'W', 'I', 'T', 'C', 'H']) {
            match crate::text::parse_unsigned(val, 0, val.len(), u64::MAX) {
                Some(v) => {
                    return Ok(Some(BmsHeaderControlFlow::Switch(v)));
                },
                None => {
                    return Err(BmsTokenizeError::InvalidInteger { value: crate::text::string_from(val) });
                },
            }
        }
        if crate::text::range_eq_ignore_case(cmd, 0, n, &['S', 'E', 'T', 'S', 'W', 'I', 'T', 'C', 'H']) {
            match crate::text::parse_unsigned(val, 0, val.len(), u64::MAX) {
                Some(v) => {
                    return Ok(Some(BmsHeaderControlFlow::SetSwitch(v)));
                },
                None => {
                    return Err(BmsTokenizeError::InvalidInteger { value: crate::text::string_from(val) });
                },
            }
        }
        if crate::text::range_eq_ignore_case(cmd, 0, n, &['E', 'N', 'D', 'S', 'W']) {
            return Ok(Some(BmsHeaderControlFlow::EndSwitch));
        }
        if crate::text::range_eq_ignore_case(cmd, 0, n, &['E', 'N', 'D', 'S', 'W', 'I', 'T', 'C', 'H']) {
            return Ok(Some(BmsHeaderControlFlow::EndSwitch));
        }
        if crate::text::range_eq_ignore_case(cmd, 0, n, &['C', 'A', 'S', 'E']) {
            match crate::text::parse_unsigned(val, 0, val.len(), u64::MAX) {
                Some(v) => {
                    return Ok(Some(BmsHeaderControlFlow::Case(v)));
                },
                None => {
                    return Err(BmsTokenizeError::InvalidInteger { value: crate::text::string_from(val) });
                },
            }
        }
        if crate::text::range_eq_ignore_case(cmd, 0, n, &['S', 'K', 'I', 'P']) {
            return Ok(Some(BmsHeaderControlFlow::Skip));
        }
        if crate::text::range_eq_ignore_case(cmd, 0, n, &['D', 'E', 'F']) {
            return Ok(Some(BmsHeaderControlFlow::Def));
        }
        Ok(None)
    }
}

/// The command and the value of a header of this group as a BMS file writes
/// them: the command with its prefix (`%` for `URL` and `EMAIL`, `#`
/// otherwise), its first spelling and its index, and the value's text.
pub open spec fn control_flow_text(h: BmsHeaderControlFlow) -> (Seq<char>, Seq<char>) {
    match h {
        BmsHeaderControlFlow::Random(v) => (seq!['#', 'R', 'A', 'N', 'D', 'O', 'M'], crate::text::dec(v as nat)),
        BmsHeaderControlFlow::SetRandom(v) => (seq!['#', 'S', 'E', 'T', 'R', 'A', 'N', 'D', 'O', 'M'], crate::text::dec(v as nat)),
        BmsHeaderControlFlow::EndRandom => (seq!['#', 'E', 'N', 'D', 'R', 'A', 'N', 'D', 'O', 'M'], Seq::empty()),
        BmsHeaderControlFlow::If(v) => (seq!['#', 'I', 'F'], crate::text::dec(v as nat)),
        BmsHeaderControlFlow::ElseIf(v) => (seq!['#', 'E', 'L', 'S', 'E', 'I', 'F'], crate::text::dec(v as nat)),
        BmsHeaderControlFlow::Else => (seq!['#', 'E', 'L', 'S', 'E'], Seq::empty()),
        BmsHeaderControlFlow::EndIf => (seq!['#', 'E', 'N', 'D', 'I', 'F'], Seq::empty()),
        BmsHeaderControlFlow::Switch(v) => (seq!['#', 'S', 'W', 'I', 'T', 'C', 'H'], crate::text::dec(v as nat)),
        BmsHeaderControlFlow::SetSwitch(v) => (seq!['#', 'S', 'E', 'T', 'S', 'W', 'I', 'T', 'C', 'H'], crate::text::dec(v as nat)),
        BmsHeaderControlFlow::EndSwitch => (seq!['#', 'E', 'N', 'D', 'S', 'W'], Seq::empty()),
        BmsHeaderControlFlow::Case(v) => (seq!['#', 'C', 'A', 'S', 'E'], crate::text::dec(v as nat)),
        BmsHeaderControlFlow::Skip => (seq!['#', 'S', 'K', 'I', 'P'], Seq::empty()),
        BmsHeaderControlFlow::Def => (seq!['#', 'D', 'E', 'F'], Seq::empty()),
    }
}

impl BmsHeaderControlFlow {
    /// The command and the value of this header (see [`control_flow_text`]).
    pub fn format_header(&self) -> (r: (String, String))
        ensures
            (r.0@, r.1@) == control_flow_text(self@),
    {
        match self {
            BmsHeaderControlFlow::Random(v) => (crate::text::string_from(&['#', 'R', 'A', 'N', 'D', 'O', 'M']), crate::text::string_from(&crate::text::fmt_u64(*v))),
            BmsHeaderControlFlow::SetRandom(v) => (crate::text::string_from(&['#', 'S', 'E', 'T', 'R', 'A', 'N', 'D', 'O', 'M']), crate::text::string_from(&crate::text::fmt_u64(*v))),
            BmsHeaderControlFlow::EndRandom => (crate::text::string_from(&['#', 'E', 'N', 'D', 'R', 'A', 'N', 'D', 'O', 'M']), String::new()),
            BmsHeaderControlFlow::If(v) => (crate::text::string_from(&['#', 'I', 'F']), crate::text::string_from(&crate::text::fmt_u64(*v))),
            BmsHeaderControlFlow::ElseIf(v) => (crate::text::string_from(&['#', 'E', 'L', 'S', 'E', 'I', 'F']), crate::text::string_from(&crate::text::fmt_u64(*v))),
            BmsHeaderControlFlow::Else => (crate::text::string_from(&['#', 'E', 'L', 'S', 'E']), String::new()),
            BmsHeaderControlFlow::EndIf => (crate::text::string_from(&['#', 'E', 'N', 'D', 'I', 'F']), String::new()),
            BmsHeaderControlFlow::Switch(v) => (crate::text::string_from(&['#', 'S', 'W', 'I', 'T', 'C', 'H']), crate::text::string_from(&crate::text::fmt_u64(*v))),
            BmsHeaderControlFlow::SetSwitch(v) => (crate::text::string_from(&['#', 'S', 'E', 'T', 'S', 'W', 'I', 'T', 'C', 'H']), crate::text::string_from(&crate::text::fmt_u64(*v))),
            BmsHeaderControlFlow::EndSwitch => (crate::text::string_from(&['#', 'E', 'N', 'D', 'S', 'W']), String::new()),
            BmsHeaderControlFlow::Case(v) => (crate::text::string_from(&['#', 'C', 'A', 'S', 'E']), crate::text::string_from(&crate::text::fmt_u64(*v))),
            BmsHeaderControlFlow::Skip => (crate::text::string_from(&['#', 'S', 'K', 'I', 'P']), String::new()),
            BmsHeaderControlFlow::Def => (crate::text::string_from(&['#', 'D', 'E', 'F']), String::new()),
        }
    }
}

/// Writing a header of this group and reading back its command (after the
/// prefix) and its value gives the same header.
pub proof fn lemma_control_flow_roundtrip(h: BmsHeaderControlFlow)
    ensures
        control_flow_of(control_flow_text(h).0.drop_first(), control_flow_text(h).1) == Ok::<Option<BmsHeaderControlFlow>, crate::error::BmsTokenizeError<Seq<char>>>(Some(h)),
{
    match h {
        BmsHeaderControlFlow::Random(v) => {
            let c = seq!['R', 'A', 'N', 'D', 'O', 'M'];
            crate::text::lemma_dec_parses(v as nat, 0, u64::MAX as int, false);
            assert(control_flow_text(h).0.drop_first() =~= c);
        },
        BmsHeaderControlFlow::SetRandom(v) => {
            let c = seq!['S', 'E', 'T', 'R', 'A', 'N', 'D', 'O', 'M'];
            crate::header::lemma_ne_len(c, seq!['R', 'A', 'N', 'D', 'O', 'M']);
            crate::header::lemma_ne_len(c, seq!['R', 'O', 'N', 'D', 'A', 'M']);
            crate::text::lemma_dec_parses(v as nat, 0, u64::MAX as int, false);
            assert(control_flow_text(h).0.drop_first() =~= c);
        },
        BmsHeaderControlFlow::EndRandom => {
            let c = seq!['E', 'N', 'D', 'R', 'A', 'N', 'D', 'O', 'M'];
            crate::header::lemma_ne_len(c, seq!['R', 'A', 'N', 'D', 'O', 'M']);
            crate::header::lemma_ne_len(c, seq!['R', 'O', 'N', 'D', 'A', 'M']);
            crate::header::lemma_ne_at(c, seq!['S', 'E', 'T', 'R', 'A', 'N', 'D', 'O', 'M'], 0);
            assert(control_flow_text(h).0.drop_first() =~= c);
        },
        BmsHeaderControlFlow::If(v) => {
            let c = seq!['I', 'F'];
            crate::header::lemma_ne_len(c, seq!['R', 'A', 'N', 'D', 'O', 'M']);
            crate::header::lemma_ne_len(c, seq!['R', 'O', 'N', 'D', 'A', 'M']);
            crate::header::lemma_ne_len(c, seq!['S', 'E', 'T', 'R', 'A', 'N', 'D', 'O', 'M']);
            crate::header::lemma_ne_len(c, seq!['E', 'N', 'D', 'R', 'A', 'N', 'D', 'O', 'M']);
            crate::text::lemma_dec_parses(v as nat, 0, u64::MAX as int, false);
            assert(control_flow_text(h).0.drop_first() =~= c);
        },
        BmsHeaderControlFlow::ElseIf(v) => {
            let c = seq!['E', 'L', 'S', 'E', 'I', 'F'];
            crate::header::lemma_ne_at(c, seq!['R', 'A', 'N', 'D', 'O', 'M'], 0);
            crate::header::lemma_ne_at(c, seq!['R', 'O', 'N', 'D', 'A', 'M'], 0);
            crate::header::lemma_ne_len(c, seq!['S', 'E', 'T', 'R', 'A', 'N', 'D', 'O', 'M']);
            crate::header::lemma_ne_len(c, seq!['E', 'N', 'D', 'R', 'A', 'N', 'D', 'O', 'M']);
            crate::header::lemma_ne_len(c, seq!['I', 'F']);
            crate::text::lemma_dec_parses(v as nat, 0, u64::MAX as int, false);
            assert(control_flow_text(h).0.drop_first() =~= c);
        },
        BmsHeaderControlFlow::Else => {
            let c = seq!['E', 'L', 'S', 'E'];
            crate::header::lemma_ne_len(c, seq!['R', 'A', 'N', 'D', 'O', 'M']);
            crate::header::lemma_ne_len(c, seq!['R', 'O', 'N', 'D', 'A', 'M']);
            crate::header::lemma_ne_len(c, seq!['S', 'E', 'T', 'R', 'A', 'N', 'D', 'O', 'M']);
            crate::header::lemma_ne_len(c, seq!['E', 'N', 'D', 'R', 'A', 'N', 'D', 'O', 'M']);
            crate::header::lemma_ne_len(c, seq!['I', 'F']);
            crate::header::lemma_ne_len(c, seq!['E', 'L', 'S', 'E', 'I', 'F']);
            assert(control_flow_text(h).0.drop_first() =~= c);
        },
        BmsHeaderControlFlow::EndIf => {
            let c = seq!['E', 'N', 'D', 'I', 'F'];
            crate::header::lemma_ne_len(c, seq!['R', 'A', 'N', 'D', 'O', 'M']);
            crate::header::lemma_ne_len(c, seq!['R', 'O', 'N', 'D', 'A', 'M']);
            crate::header::lemma_ne_len(c, seq!['S', 'E', 'T', 'R', 'A', 'N', 'D', 'O', 'M']);
            crate::header::lemma_ne_len(c, seq!['E', 'N', 'D', 'R', 'A', 'N', 'D', 'O', 'M']);
            crate::header::lemma_ne_len(c, seq!['I', 'F']);
            crate::header::lemma_ne_len(c, seq!['E', 'L', 'S', 'E', 'I', 'F']);
            crate::header::lemma_ne_len(c, seq!['E', 'L', 'S', 'E']);
            assert(control_flow_text(h).0.drop_first() =~= c);
        },
        BmsHeaderControlFlow::Switch(v) => {
            let c = seq!['S', 'W', 'I', 'T', 'C', 'H'];
            crate::header::lemma_ne_at(c, seq!['R', 'A', 'N', 'D', 'O', 'M'], 0);
            crate::header::lemma_ne_at(c, seq!['R', 'O', 'N', 'D', 'A', 'M'], 0);
            crate::header::lemma_ne_len(c, seq!['S', 'E', 'T', 'R', 'A', 'N', 'D', 'O', 'M']);
            crate::header::lemma_ne_len(c, seq!['E', 'N', 'D', 'R', 'A', 'N', 'D', 'O', 'M']);
            crate::header::lemma_ne_len(c, seq!['I', 'F']);
            crate::header::lemma_ne_at(c, seq!['E', 'L', 'S', 'E', 'I', 'F'], 0);
            crate::header::lemma_ne_len(c, seq!['E', 'L', 'S', 'E']);
            crate::header::lemma_ne_len(c, seq!['E', 'N', 'D', 'I', 'F']);
            crate::header::lemma_ne_len(c, seq!['E', 'N', 'D']);
            crate::header::lemma_ne_len(c, seq!['I', 'F', 'E', 'N', 'D']);
            crate::text::lemma_dec_parses(v as nat, 0, u64::MAX as int, false);
            assert(control_flow_text(h).0.drop_first() =~= c);
        },
        BmsHeaderControlFlow::SetSwitch(v) => {
            let c = seq!['S', 'E', 'T', 'S', 'W', 'I', 'T', 'C', 'H'];
            crate::header::lemma_ne_len(c, seq!['R', 'A', 'N', 'D', 'O', 'M']);
            crate::header::lemma_ne_len(c, seq!['R', 'O', 'N', 'D', 'A', 'M']);
            crate::header::lemma_ne_at(c, seq!['S', 'E', 'T', 'R', 'A', 'N', 'D', 'O', 'M'], 3);
            crate::header::lemma_ne_at(c, seq!['E', 'N', 'D', 'R', 'A', 'N', 'D', 'O', 'M'], 0);
            crate::header::lemma_ne_len(c, seq!['I', 'F']);
            crate::header::lemma_ne_len(c, seq!['E', 'L', 'S', 'E', 'I', 'F']);
            crate::header::lemma_ne_len(c, seq!['E', 'L', 'S', 'E']);
            crate::header::lemma_ne_len(c, seq!['E', 'N', 'D', 'I', 'F']);
            crate::header::lemma_ne_len(c, seq!['E', 'N', 'D']);
            crate::header::lemma_ne_len(c, seq!['I', 'F', 'E', 'N', 'D']);
            crate::header::lemma_ne_len(c, seq!['S', 'W', 'I', 'T', 'C', 'H']);
            crate::text::lemma_dec_parses(v as nat, 0, u64::MAX as int, false);
            assert(control_flow_text(h).0.drop_first() =~= c);
        },
        BmsHeaderControlFlow::EndSwitch => {
            let c = seq!['E', 'N', 'D', 'S', 'W'];
            crate::header::lemma_ne_len(c, seq!['R', 'A', 'N', 'D', 'O', 'M']);
            crate::header::lemma_ne_len(c, seq!['R', 'O', 'N', 'D', 'A', 'M']);
            crate::header::lemma_ne_len(c, seq!['S', 'E', 'T', 'R', 'A', 'N', 'D', 'O', 'M']);
            crate::header::lemma_ne_len(c, seq!['E', 'N', 'D', 'R', 'A', 'N', 'D', 'O', 'M']);
            crate::header::lemma_ne_len(c, seq!['I', 'F']);
            crate::header::lemma_ne_len(c, seq!['E', 'L', 'S', 'E', 'I', 'F']);
            crate::header::lemma_ne_len(c, seq!['E', 'L', 'S', 'E']);
            crate::header::lemma_ne_at(c, seq!['E', 'N', 'D', 'I', 'F'], 3);
            crate::header::lemma_ne_len(c, seq!['E', 'N', 'D']);
            crate::header::lemma_ne_at(c, seq!['I', 'F', 'E', 'N', 'D'], 0);
            crate::header::lemma_ne_len(c, seq!['S', 'W', 'I', 'T', 'C', 'H']);
            crate::header::lemma_ne_len(c, seq!['S', 'E', 'T', 'S', 'W', 'I', 'T', 'C', 'H']);
            assert(control_flow_text(h).0.drop_first() =~= c);
        },
        BmsHeaderControlFlow::Case(v) => {
            let c = seq!['C', 'A', 'S', 'E'];
            crate::header::lemma_ne_len(c, seq!['R', 'A', 'N', 'D', 'O', 'M']);
            crate::header::lemma_ne_len(c, seq!['R', 'O', 'N', 'D', 'A', 'M']);
            crate::header::lemma_ne_len(c, seq!['S', 'E', 'T', 'R', 'A', 'N', 'D', 'O', 'M']);
            crate::header::lemma_ne_len(c, seq!['E', 'N', 'D', 'R', 'A', 'N', 'D', 'O', 'M']);
            crate::header::lemma_ne_len(c, seq!['I', 'F']);
            crate::header::lemma_ne_len(c, seq!['E', 'L', 'S', 'E', 'I', 'F']);
            crate::header::lemma_ne_at(c, seq!['E', 'L', 'S', 'E'], 0);
            crate::header::lemma_ne_len(c, seq!['E', 'N', 'D', 'I', 'F']);
            crate::header::lemma_ne_len(c, seq!['E', 'N', 'D']);
            crate::header::lemma_ne_len(c, seq!['I', 'F', 'E', 'N', 'D']);
            crate::header::lemma_ne_len(c, seq!['S', 'W', 'I', 'T', 'C', 'H']);
            crate::header::lemma_ne_len(c, seq!['S', 'E', 'T', 'S', 'W', 'I', 'T', 'C', 'H']);
            crate::header::lemma_ne_len(c, seq!['E', 'N', 'D', 'S', 'W']);
            crate::header::lemma_ne_len(c, seq!['E', 'N', 'D', 'S', 'W', 'I', 'T', 'C', 'H']);
            crate::text::lemma_dec_parses(v as nat, 0, u64::MAX as int, false);
            assert(control_flow_text(h).0.drop_first() =~= c);
        },
        BmsHeaderControlFlow::Skip => {
            let c = seq!['S', 'K', 'I', 'P'];
            crate::header::lemma_ne_len(c, seq!['R', 'A', 'N', 'D', 'O', 'M']);
            crate::header::lemma_ne_len(c, seq!['R', 'O', 'N', 'D', 'A', 'M']);
            crate::header::lemma_ne_len(c, seq!['S', 'E', 'T', 'R', 'A', 'N', 'D', 'O', 'M']);
            crate::header::lemma_ne_len(c, seq!['E', 'N', 'D', 'R', 'A', 'N', 'D', 'O', 'M']);
            crate::header::lemma_ne_len(c, seq!['I', 'F']);
            crate::header::lemma_ne_len(c, seq!['E', 'L', 'S', 'E', 'I', 'F']);
            crate::header::lemma_ne_at(c, seq!['E', 'L', 'S', 'E'], 0);
            crate::header::lemma_ne_len(c, seq!['E', 'N', 'D', 'I', 'F']);
            crate::header::lemma_ne_len(c, seq!['E', 'N', 'D']);
            crate::header::lemma_ne_len(c, seq!['I', 'F', 'E', 'N', 'D']);
            crate::header::lemma_ne_len(c, seq!['S', 'W', 'I', 'T', 'C', 'H']);
            crate::header::lemma_ne_len(c, seq!['S', 'E', 'T', 'S', 'W', 'I', 'T', 'C', 'H']);
            crate::header::lemma_ne_len(c, seq!['E', 'N', 'D', 'S', 'W']);
            crate::header::lemma_ne_len(c, seq!['E', 'N', 'D', 'S', 'W', 'I', 'T', 'C', 'H']);
            crate::header::lemma_ne_at(c, seq!['C', 'A', 'S', 'E'], 0);
            assert(control_flow_text(h).0.drop_first() =~= c);
        },
        BmsHeaderControlFlow::Def => {
            let c = seq!['D', 'E', 'F'];
            crate::header::lemma_ne_len(c, seq!['R', 'A', 'N', 'D', 'O', 'M']);
            crate::header::lemma_ne_len(c, seq!['R', 'O', 'N', 'D', 'A', 'M']);
            crate::header::lemma_ne_len(c, seq!['S', 'E', 'T', 'R', 'A', 'N', 'D', 'O', 'M']);
            crate::header::lemma_ne_len(c, seq!['E', 'N', 'D', 'R', 'A', 'N', 'D', 'O', 'M']);
            crate::header::lemma_ne_len(c, seq!['I', 'F']);
            crate::header::lemma_ne_len(c, seq!['E', 'L', 'S', 'E', 'I', 'F']);
            crate::header::lemma_ne_len(c, seq!['E', 'L', 'S', 'E']);
            crate::header::lemma_ne_len(c, seq!['E', 'N', 'D', 'I', 'F']);
            crate::header::lemma_ne_at(c, seq!['E', 'N', 'D'], 0);
            crate::header::lemma_ne_len(c, seq!['I', 'F', 'E', 'N', 'D']);
            crate::header::lemma_ne_len(c, seq!['S', 'W', 'I', 'T', 'C', 'H']);
            crate::header::lemma_ne_len(c, seq!['S', 'E', 'T', 'S', 'W', 'I', 'T', 'C', 'H']);
            crate::header::lemma_ne_len(c, seq!['E', 'N', 'D', 'S', 'W']);
            crate::header::lemma_ne_len(c, seq!['E', 'N', 'D', 'S', 'W', 'I', 'T', 'C', 'H']);
            crate::header::lemma_ne_len(c, seq!['C', 'A', 'S', 'E']);
            crate::header::lemma_ne_len(c, seq!['S', 'K', 'I', 'P']);
            assert(control_flow_text(h).0.drop_first() =~= c);
        },
    }
}

} // verus!
