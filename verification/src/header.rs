//! Header commands, grouped by domain.
//!
//! A header line is `#COMMAND value` (or `%COMMAND value`).  The command
//! is matched case-insensitively against each group's patterns in a fixed
//! order; a command that no pattern takes becomes a [`BmsHeaderFallback`].

pub mod control_flow;
pub mod display;
pub mod gameplay;
pub mod metadata;
pub mod res_def_audio;
pub mod res_def_visual;
pub mod timing;

use vstd::prelude::*;

use crate::index::{ascii_text, BmsBase, BmsIndex};
use crate::error::{outcome_view, BmsTokenizeError};
use crate::params::word_end;
use crate::text::{eq_ignore_case, first_index, trim};
use control_flow::{control_flow_of, BmsHeaderControlFlow};
use display::{display_of, BmsHeaderDisplay};
use gameplay::{gameplay_of, BmsHeaderGameplay};
use metadata::{metadata_of, BmsHeaderMetadata};
use res_def_audio::{res_def_audio_of, BmsHeaderResDefAudio};
use res_def_visual::{res_def_visual_of, BmsHeaderResDefVisual};
use timing::{timing_of, BmsHeaderTiming};

verus! {

/// Whether `cmd` is `name` (ignoring ASCII case) followed by a one- or
/// two-character index.
pub open spec fn cmd_has_id(cmd: Seq<char>, name: Seq<char>) -> bool {
    &&& name.len() < cmd.len() <= name.len() + 2
    &&& eq_ignore_case(cmd.take(name.len() as int), name)
}

/// A header command, classified by domain.
#[derive(Debug, Clone, PartialEq)]
pub enum BmsHeader<C = String> {
    /// Sound resources (`#WAV`, `#EXWAV`, `#WAVCMD`, …).
    ResDefAudio(BmsHeaderResDefAudio<C>),
    /// Timing (`#BPM`, `#STOP`, `#SCROLL`, `#SPEED`, …).
    Timing(BmsHeaderTiming<C>),
    /// Image and video resources (`#BMP`, `#BGA`, `#ARGB`, …).
    ResDefVisual(BmsHeaderResDefVisual<C>),
    /// Control flow (`#RANDOM`, `#SWITCH`, `#IF`, …).
    ControlFlow(BmsHeaderControlFlow),
    /// Gameplay (`#PLAYER`, `#RANK`, `#TOTAL`, `#LNTYPE`, …).
    Gameplay(BmsHeaderGameplay<C>),
    /// Display and difficulty (`#STAGEFILE`, `#DIFFICULTY`, …).
    Display(BmsHeaderDisplay<C>),
    /// Song and chart metadata (`#TITLE`, `#ARTIST`, `#GENRE`, …).
    Metadata(BmsHeaderMetadata<C>),
    /// An unrecognized or engine-specific command.
    Fallback(BmsHeaderFallback<C>),
}

impl BmsHeader<String> {
    /// The group header inside a `ResDefAudio` header; any other header is handed
    /// back.
    pub fn try_unwrap_res_def_audio(self) -> (r: Result<BmsHeaderResDefAudio<String>, Self>)
        ensures
            match self {
                BmsHeader::ResDefAudio(h) => r == Ok::<BmsHeaderResDefAudio<String>, Self>(h),
                _ => r == Err::<BmsHeaderResDefAudio<String>, Self>(self),
            },
    {
        match self {
            BmsHeader::ResDefAudio(h) => Ok(h),
            other => Err(other),
        }
    }

    /// The group header inside a `Timing` header; any other header is handed
    /// back.
    pub fn try_unwrap_timing(self) -> (r: Result<BmsHeaderTiming<String>, Self>)
        ensures
            match self {
                BmsHeader::Timing(h) => r == Ok::<BmsHeaderTiming<String>, Self>(h),
                _ => r == Err::<BmsHeaderTiming<String>, Self>(self),
            },
    {
        match self {
            BmsHeader::Timing(h) => Ok(h),
            other => Err(other),
        }
    }

    /// The group header inside a `ResDefVisual` header; any other header is handed
    /// back.
    pub fn try_unwrap_res_def_visual(self) -> (r: Result<BmsHeaderResDefVisual<String>, Self>)
        ensures
            match self {
                BmsHeader::ResDefVisual(h) => r == Ok::<BmsHeaderResDefVisual<String>, Self>(h),
                _ => r == Err::<BmsHeaderResDefVisual<String>, Self>(self),
            },
    {
        match self {
            BmsHeader::ResDefVisual(h) => Ok(h),
            other => Err(other),
        }
    }

    /// The group header inside a `ControlFlow` header; any other header is handed
    /// back.
    pub fn try_unwrap_control_flow(self) -> (r: Result<BmsHeaderControlFlow, Self>)
        ensures
            match self {
                BmsHeader::ControlFlow(h) => r == Ok::<BmsHeaderControlFlow, Self>(h),
                _ => r == Err::<BmsHeaderControlFlow, Self>(self),
            },
    {
        match self {
            BmsHeader::ControlFlow(h) => Ok(h),
            other => Err(other),
        }
    }

    /// The group header inside a `Gameplay` header; any other header is handed
    /// back.
    pub fn try_unwrap_gameplay(self) -> (r: Result<BmsHeaderGameplay<String>, Self>)
        ensures
            match self {
                BmsHeader::Gameplay(h) => r == Ok::<BmsHeaderGameplay<String>, Self>(h),
                _ => r == Err::<BmsHeaderGameplay<String>, Self>(self),
            },
    {
        match self {
            BmsHeader::Gameplay(h) => Ok(h),
            other => Err(other),
        }
    }

    /// The group header inside a `Display` header; any other header is handed
    /// back.
    pub fn try_unwrap_display(self) -> (r: Result<BmsHeaderDisplay<String>, Self>)
        ensures
            match self {
                BmsHeader::Display(h) => r == Ok::<BmsHeaderDisplay<String>, Self>(h),
                _ => r == Err::<BmsHeaderDisplay<String>, Self>(self),
            },
    {
        match self {
            BmsHeader::Display(h) => Ok(h),
            other => Err(other),
        }
    }

    /// The group header inside a `Metadata` header; any other header is handed
    /// back.
    pub fn try_unwrap_metadata(self) -> (r: Result<BmsHeaderMetadata<String>, Self>)
        ensures
            match self {
                BmsHeader::Metadata(h) => r == Ok::<BmsHeaderMetadata<String>, Self>(h),
                _ => r == Err::<BmsHeaderMetadata<String>, Self>(self),
            },
    {
        match self {
            BmsHeader::Metadata(h) => Ok(h),
            other => Err(other),
        }
    }

    /// The group header inside a `Fallback` header; any other header is handed
    /// back.
    pub fn try_unwrap_fallback(self) -> (r: Result<BmsHeaderFallback<String>, Self>)
        ensures
            match self {
                BmsHeader::Fallback(h) => r == Ok::<BmsHeaderFallback<String>, Self>(h),
                _ => r == Err::<BmsHeaderFallback<String>, Self>(self),
            },
    {
        match self {
            BmsHeader::Fallback(h) => Ok(h),
            other => Err(other),
        }
    }
}

/// An unrecognized header command, kept as written so that later stages
/// can handle engine extensions.
#[derive(Debug, Clone, PartialEq, Eq)]
pub struct BmsHeaderFallback<C = String> {
    /// The command as written (for example `"MYEXT"`).
    pub command: C,
    /// The value after the separating whitespace.
    pub value: C,
}

impl View for BmsHeaderFallback<String> {
    type V = BmsHeaderFallback<Seq<char>>;

    open spec fn view(&self) -> BmsHeaderFallback<Seq<char>> {
        BmsHeaderFallback { command: self.command@, value: self.value@ }
    }
}

impl View for BmsHeader<String> {
    type V = BmsHeader<Seq<char>>;

    open spec fn view(&self) -> BmsHeader<Seq<char>> {
        match self {
            BmsHeader::ResDefAudio(h) => BmsHeader::ResDefAudio(h@),
            BmsHeader::Timing(h) => BmsHeader::Timing(h@),
            BmsHeader::ResDefVisual(h) => BmsHeader::ResDefVisual(h@),
            BmsHeader::ControlFlow(h) => BmsHeader::ControlFlow(h@),
            BmsHeader::Gameplay(h) => BmsHeader::Gameplay(h@),
            BmsHeader::Display(h) => BmsHeader::Display(h@),
            BmsHeader::Metadata(h) => BmsHeader::Metadata(h@),
            BmsHeader::Fallback(h) => BmsHeader::Fallback(h@),
        }
    }
}

/// The header that `cmd` and `val` denote: the groups are tried in the
/// order sound, timing, image, control flow, gameplay, display, metadata;
/// the first that matches (or fails) decides.
pub open spec fn header_of(cmd: Seq<char>, val: Seq<char>) -> Result<
    Option<BmsHeader<Seq<char>>>,
    BmsTokenizeError<Seq<char>>,
> {
    match res_def_audio_of(cmd, val) {
        Err(e) => Err(e),
        Ok(Some(h)) => Ok(Some(BmsHeader::ResDefAudio(h))),
        Ok(None) => match timing_of(cmd, val) {
            Err(e) => Err(e),
            Ok(Some(h)) => Ok(Some(BmsHeader::Timing(h))),
            Ok(None) => match res_def_visual_of(cmd, val) {
                Err(e) => Err(e),
                Ok(Some(h)) => Ok(Some(BmsHeader::ResDefVisual(h))),
                Ok(None) => match control_flow_of(cmd, val) {
                    Err(e) => Err(e),
                    Ok(Some(h)) => Ok(Some(BmsHeader::ControlFlow(h))),
                    Ok(None) => match gameplay_of(cmd, val) {
                        Err(e) => Err(e),
                        Ok(Some(h)) => Ok(Some(BmsHeader::Gameplay(h))),
                        Ok(None) => match display_of(cmd, val) {
                            Err(e) => Err(e),
                            Ok(Some(h)) => Ok(Some(BmsHeader::Display(h))),
                            Ok(None) => match metadata_of(cmd, val) {
                                Err(e) => Err(e),
                                Ok(Some(h)) => Ok(Some(BmsHeader::Metadata(h))),
                                Ok(None) => Ok(None),
                            },
                        },
                    },
                },
            },
        },
    }
}

impl BmsHeader<String> {
    /// Matches a command name and value against every group's patterns.
    pub fn try_match_header(cmd: &[char], val: &[char]) -> (r: Result<
        Option<Self>,
        BmsTokenizeError<String>,
    >)
        ensures
            outcome_view(r) == header_of(cmd@, val@),
    {
        match BmsHeaderResDefAudio::match_chars(cmd, val) {
            Err(e) => {
                return Err(e);
            },
            Ok(Some(h)) => {
                return Ok(Some(BmsHeader::ResDefAudio(h)));
            },
            Ok(None) => {},
        }
        match BmsHeaderTiming::match_chars(cmd, val) {
            Err(e) => {
                return Err(e);
            },
            Ok(Some(h)) => {
                return Ok(Some(BmsHeader::Timing(h)));
            },
            Ok(None) => {},
        }
        match BmsHeaderResDefVisual::match_chars(cmd, val) {
            Err(e) => {
                return Err(e);
            },
            Ok(Some(h)) => {
                return Ok(Some(BmsHeader::ResDefVisual(h)));
            },
            Ok(None) => {},
        }
        match BmsHeaderControlFlow::match_chars(cmd, val) {
            Err(e) => {
                return Err(e);
            },
            Ok(Some(h)) => {
                return Ok(Some(BmsHeader::ControlFlow(h)));
            },
            Ok(None) => {},
        }
        match BmsHeaderGameplay::match_chars(cmd, val) {
            Err(e) => {
                return Err(e);
            },
            Ok(Some(h)) => {
                return Ok(Some(BmsHeader::Gameplay(h)));
            },
            Ok(None) => {},
        }
        match BmsHeaderDisplay::match_chars(cmd, val) {
            Err(e) => {
                return Err(e);
            },
            Ok(Some(h)) => {
                return Ok(Some(BmsHeader::Display(h)));
            },
            Ok(None) => {},
        }
        match BmsHeaderMetadata::match_chars(cmd, val) {
            Err(e) => Err(e),
            Ok(Some(h)) => Ok(Some(BmsHeader::Metadata(h))),
            Ok(None) => Ok(None),
        }
    }
}

/// The trimmed line without its prefix character.
pub open spec fn header_rest(line: Seq<char>) -> Seq<char> {
    trim(line).drop_first()
}

/// The command: the rest up to its first ASCII whitespace.
pub open spec fn header_command(line: Seq<char>) -> Seq<char> {
    header_rest(line).take(word_end(header_rest(line), 0))
}

/// The value: what follows the command, trimmed.
pub open spec fn header_value(line: Seq<char>) -> Seq<char> {
    trim(header_rest(line).skip(word_end(header_rest(line), 0)))
}

/// Whether the trimmed line is a header line for the given prefixes: not
/// empty, not a `##` comment, starting with one of the prefixes, with a
/// non-empty command that holds no `:` (a `:` makes it a channel message).
pub open spec fn is_header_shape(line: Seq<char>, prefixes: Seq<char>) -> bool {
    let t = trim(line);
    &&& t.len() > 0
    &&& !(t.len() >= 2 && t[0] == '#' && t[1] == '#')
    &&& prefixes.contains(t[0])
    &&& header_command(line).len() > 0
    &&& first_index(header_command(line), ':') < 0
}

/// What a header line reads as.  A `%` command other than `URL` and
/// `EMAIL` is always kept as a fallback (so that `%TITLE` cannot pass for
/// `#TITLE`); any other command goes through [`header_of`], and becomes a
/// fallback when no pattern takes it.
pub open spec fn header_line_of(line: Seq<char>, prefixes: Seq<char>) -> Result<
    Option<BmsHeader<Seq<char>>>,
    BmsTokenizeError<Seq<char>>,
> {
    let cmd = header_command(line);
    let val = header_value(line);
    let fallback = BmsHeader::Fallback(BmsHeaderFallback { command: cmd, value: val });
    if !is_header_shape(line, prefixes) {
        Ok(None)
    } else if trim(line)[0] == '%' && !eq_ignore_case(cmd, seq!['U', 'R', 'L'])
        && !eq_ignore_case(cmd, seq!['E', 'M', 'A', 'I', 'L']) {
        Ok(Some(fallback))
    } else {
        match header_of(cmd, val) {
            Err(e) => Err(e),
            Ok(Some(h)) => Ok(Some(h)),
            Ok(None) => Ok(Some(fallback)),
        }
    }
}

/// Reads one line as a header.
///
/// `prefixes` are the characters that mark a header (usually `#` and `%`).
/// `Ok(None)` when the line is not a header (empty, a `##` comment, channel
/// data, another prefix); an error when a recognized command's value does
/// not parse.
pub fn parse_header_line(line: &str, prefixes: &[char]) -> (r: Result<
    Option<BmsHeader<String>>,
    BmsTokenizeError<String>,
>)
    ensures
        outcome_view(r) == header_line_of(line@, prefixes@),
{
    let l = crate::text::chars_of(line);
    header_from_chars(&l, prefixes)
}

/// Reads a line held as characters as a header (see [`parse_header_line`]).
pub fn header_from_chars(l: &[char], prefixes: &[char]) -> (r: Result<
    Option<BmsHeader<String>>,
    BmsTokenizeError<String>,
>)
    ensures
        outcome_view(r) == header_line_of(l@, prefixes@),
{
    let (a, b) = crate::text::trim_range(l, 0, l.len());
    let ghost t = trim(l@);
    proof {
        assert(l@.subrange(0, l@.len() as int) =~= l@);
    }
    if a == b {
        return Ok(None);
    }
    if b - a >= 2 && l[a] == '#' && l[a + 1] == '#' {
        return Ok(None);
    }
    let first = l[a];
    let mut k: usize = 0;
    let mut found = false;
    while k < prefixes.len()
        invariant
            k <= prefixes@.len(),
            found == (exists|j: int| 0 <= j < k && prefixes@[j] == first),
        decreases prefixes.len() - k,
    {
        if prefixes[k] == first {
            found = true;
        }
        k = k + 1;
    }
    proof {
        assert(t[0] == first);
        if prefixes@.contains(first) {
            let j = choose|j: int| 0 <= j < prefixes@.len() && prefixes@[j] == first;
            assert(exists|j: int| 0 <= j < k && prefixes@[j] == first);
        }
        if found {
            let j = choose|j: int| 0 <= j < k && prefixes@[j] == first;
            assert(prefixes@[j] == first);
        }
    }
    if !found {
        return Ok(None);
    }
    let rest = crate::text::copy_range(l, a + 1, b);
    proof {
        assert(rest@ =~= header_rest(l@));
    }
    let sp = crate::params::word_end_exec(&rest, 0);
    let command = crate::text::copy_range(&rest, 0, sp);
    let (va, vb) = crate::text::trim_range(&rest, sp, rest.len());
    let value = crate::text::copy_range(&rest, va, vb);
    proof {
        assert(command@ =~= header_command(l@));
        assert(rest@.skip(sp as int) =~= rest@.subrange(sp as int, rest@.len() as int));
        assert(value@ =~= header_value(l@));
    }
    if command.len() == 0 {
        return Ok(None);
    }
    let colon = crate::text::find_char(&command, 0, command.len(), ':');
    proof {
        assert(command@.subrange(0, command@.len() as int) =~= command@);
    }
    if colon < command.len() {
        return Ok(None);
    }
    if first == '%' && !crate::text::range_eq_ignore_case(&command, 0, command.len(), &['U', 'R', 'L'])
        && !crate::text::range_eq_ignore_case(&command, 0, command.len(), &['E', 'M', 'A', 'I', 'L']) {
        return Ok(
            Some(
                BmsHeader::Fallback(
                    BmsHeaderFallback {
                        command: crate::text::string_from(&command),
                        value: crate::text::string_from(&value),
                    },
                ),
            ),
        );
    }
    match BmsHeader::try_match_header(&command, &value) {
        Err(e) => Err(e),
        Ok(Some(h)) => Ok(Some(h)),
        Ok(None) => Ok(
            Some(
                BmsHeader::Fallback(
                    BmsHeaderFallback {
                        command: crate::text::string_from(&command),
                        value: crate::text::string_from(&value),
                    },
                ),
            ),
        ),
    }
}

/// The text of a character set of indices: `16`, `36` or `62`.
pub open spec fn bms_base_text(b: BmsBase) -> Seq<char> {
    match b {
        BmsBase::Base16 => seq!['1', '6'],
        BmsBase::Base36 => seq!['3', '6'],
        BmsBase::Base62 => seq!['6', '2'],
    }
}

/// The text of a character set of indices (see [`bms_base_text`]).
pub fn bms_base_string(b: BmsBase) -> (r: String)
    ensures
        r@ == bms_base_text(b),
{
    match b {
        BmsBase::Base16 => crate::text::string_from(&['1', '6']),
        BmsBase::Base36 => crate::text::string_from(&['3', '6']),
        BmsBase::Base62 => crate::text::string_from(&['6', '2']),
    }
}

/// A command followed by the text of its index.
pub fn cmd_with_id(name: &[char], id: &BmsIndex) -> (r: String)
    ensures
        r@ == name@ + ascii_text(id@),
{
    let mut out: Vec<char> = Vec::new();
    crate::text::extend_chars(&mut out, name);
    let ic = crate::text::chars_of(id.as_str().as_str());
    crate::text::extend_chars(&mut out, &ic);
    assert(out@ =~= name@ + ascii_text(id@));
    crate::text::string_from(&out)
}

/// Commands of different lengths never match.
pub proof fn lemma_ne_len(a: Seq<char>, b: Seq<char>)
    requires
        a.len() != b.len(),
    ensures
        !eq_ignore_case(a, b),
{
    assert(crate::text::upper(a).len() != crate::text::upper(b).len());
}

/// Commands that differ at one position, ignoring case, never match.
pub proof fn lemma_ne_at(a: Seq<char>, b: Seq<char>, i: int)
    requires
        0 <= i < a.len(),
        i < b.len(),
        crate::text::to_upper(a[i]) != crate::text::to_upper(b[i]),
    ensures
        !eq_ignore_case(a, b),
{
    assert(crate::text::upper(a)[i] != crate::text::upper(b)[i]);
}

} // verus!
