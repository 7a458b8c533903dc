//! Sound resource headers: `#WAV`, `#EXWAV`, `#WAVCMD`, `#CDDA`, `#MIDIFILE`,
//! `#PATH_WAV`.

use vstd::prelude::*;

use crate::error::{outcome_view, BmsTokenizeError};
use crate::header::cmd_has_id;
use crate::text::eq_ignore_case;
use crate::index::{index_from_text, index_text_ok, BmsIndex, WavIndex};
use crate::params::{exwav_of, wav_cmd_of, ExWavParams, WavCmdParams};

verus! {

/// Sound resource headers.
#[derive(Debug, Clone, PartialEq)]
pub enum BmsHeaderResDefAudio<C = String> {
    /// `#WAV{id}`: a sound file.
    Wav {
        /// The index.
        id: WavIndex,
        /// The value.
        filename: C,
    },
    /// `#EXWAV{id}`: a sound file with pan, volume and frequency.
    ExWav {
        /// The index.
        id: WavIndex,
        /// The value.
        params: ExWavParams<C>,
    },
    /// `#WAVCMD`: an adjustment of a sound.
    WavCmd {
        /// The value.
        params: WavCmdParams,
    },
    /// `#CDDA`: a CD audio track.
    Cdda(C),
    /// `#MIDIFILE`: a MIDI background track.
    Midifile(C),
    /// `#PATH_WAV`: the folder of the sound files.
    PathWav(C),
}

impl View for BmsHeaderResDefAudio<String> {
    type V = BmsHeaderResDefAudio<Seq<char>>;

    open spec fn view(&self) -> BmsHeaderResDefAudio<Seq<char>> {
        match self {
            BmsHeaderResDefAudio::Wav { id, filename } => BmsHeaderResDefAudio::Wav { id: *id, filename: filename@ },
            BmsHeaderResDefAudio::ExWav { id, params } => BmsHeaderResDefAudio::ExWav { id: *id, params: params@ },
            BmsHeaderResDefAudio::WavCmd { params } => BmsHeaderResDefAudio::WavCmd { params: *params },
            BmsHeaderResDefAudio::Cdda(x) => BmsHeaderResDefAudio::Cdda(x@),
            BmsHeaderResDefAudio::Midifile(x) => BmsHeaderResDefAudio::Midifile(x@),
            BmsHeaderResDefAudio::PathWav(x) => BmsHeaderResDefAudio::PathWav(x@),
        }
    }
}

/// The header that `cmd` and `val` denote among the BmsHeaderResDefAudio patterns, in
/// declaration order: `Ok(None)` when none matches.
pub open spec fn res_def_audio_of(cmd: Seq<char>, val: Seq<char>) -> Result<
    Option<BmsHeaderResDefAudio<Seq<char>>>,
    BmsTokenizeError<Seq<char>>,
> {
    if cmd_has_id(cmd, seq!['W', 'A', 'V']) {
        if index_text_ok(cmd.skip(3)) {
            Ok(Some(BmsHeaderResDefAudio::Wav { id: WavIndex(index_from_text(cmd.skip(3))), filename: val }))
        } else {
            Err(BmsTokenizeError::InvalidInteger { value: cmd.skip(3) })
        }
    } else if cmd_has_id(cmd, seq!['E', 'X', 'W', 'A', 'V']) && index_text_ok(cmd.skip(5)) && exwav_of(val) is Some {
        Ok(Some(BmsHeaderResDefAudio::ExWav { id: WavIndex(index_from_text(cmd.skip(5))), params: exwav_of(val).unwrap() }))
    } else if eq_ignore_case(cmd, seq!['W', 'A', 'V', 'C', 'M', 'D']) && wav_cmd_of(val) is Some {
        Ok(Some(BmsHeaderResDefAudio::WavCmd { params: wav_cmd_of(val).unwrap() }))
    } else if eq_ignore_case(cmd, seq!['C', 'D', 'D', 'A']) {
        Ok(Some(BmsHeaderResDefAudio::Cdda(val)))
    } else if eq_ignore_case(cmd, seq!['M', 'I', 'D', 'I', 'F', 'I', 'L', 'E']) {
        Ok(Some(BmsHeaderResDefAudio::Midifile(val)))
    } else if eq_ignore_case(cmd, seq!['P', 'A', 'T', 'H', '_', 'W', 'A', 'V']) {
        Ok(Some(BmsHeaderResDefAudio::PathWav(val)))
    } else {
        Ok(None)
    }
}

impl BmsHeaderResDefAudio<String> {

    /// Matches a command name and a value against this group's patterns.
    pub fn try_match_header(cmd: &str, val: &str) -> (r: Result<Option<Self>, BmsTokenizeError<String>>)
        ensures
            outcome_view(r) == res_def_audio_of(cmd@, val@),
    {
        let c = crate::text::chars_of(cmd);
        let v = crate::text::chars_of(val);
        Self::match_chars(&c, &v)
    }
    /// Matches a command name and value against the BmsHeaderResDefAudio patterns.
    pub fn match_chars(cmd: &[char], val: &[char]) -> (r: Result<
        Option<Self>,
        BmsTokenizeError<String>,
    >)
        ensures
            outcome_view(r) == res_def_audio_of(cmd@, val@),
    {
        let n = cmd.len();
        proof {
            assert(cmd@.subrange(0, n as int) =~= cmd@);
            assert(val@.subrange(0, val@.len() as int) =~= val@);
        }
        if n > 3 && n <= 5 && crate::text::range_eq_ignore_case(cmd, 0, 3, &['W', 'A', 'V']) {
            let i = match BmsIndex::parse_chars(cmd, 3, n) {
                Some(i) => i,
                None => {
                    return Err(
                        BmsTokenizeError::InvalidInteger {
                            value: crate::text::string_from_range(cmd, 3, n),
                        },
                    );
                },
            };
            return Ok(Some(BmsHeaderResDefAudio::Wav { id: WavIndex(i), filename: crate::text::string_from(val) }));
        }
        if n > 5 && n <= 7 && crate::text::range_eq_ignore_case(cmd, 0, 5, &['E', 'X', 'W', 'A', 'V']) {
            if let (Some(i), Some(p)) = (BmsIndex::parse_chars(cmd, 5, n), ExWavParams::parse_chars(val)) {
                return Ok(Some(BmsHeaderResDefAudio::ExWav { id: WavIndex(i), params: p }));
            }
        }
        if crate::text::range_eq_ignore_case(cmd, 0, n, &['W', 'A', 'V', 'C', 'M', 'D']) {
            if let Some(p) = WavCmdParams::from_chars(val, 0, val.len()) {
                return Ok(Some(BmsHeaderResDefAudio::WavCmd { params: p }));
            }
        }
        if crate::text::range_eq_ignore_case(cmd, 0, n, &['C', 'D', 'D', 'A']) {
            return Ok(Some(BmsHeaderResDefAudio::Cdda(crate::text::string_from(val))));
        }
        if crate::text::range_eq_ignore_case(cmd, 0, n, &['M', 'I', 'D', 'I', 'F', 'I', 'L', 'E']) {
            return Ok(Some(BmsHeaderResDefAudio::Midifile(crate::text::string_from(val))));
        }
        if crate::text::range_eq_ignore_case(cmd, 0, n, &['P', 'A', 'T', 'H', '_', 'W', 'A', 'V']) {
            return Ok(Some(BmsHeaderResDefAudio::PathWav(crate::text::string_from(val))));
        }
        Ok(None)
    }
}

/// The command and the value of a header of this group as a BMS file writes
/// them: the command with its prefix (`%` for `URL` and `EMAIL`, `#`
/// otherwise), its first spelling and its index, and the value's text.
pub open spec fn res_def_audio_text(h: BmsHeaderResDefAudio<Seq<char>>) -> (Seq<char>, Seq<char>) {
    match h {
        BmsHeaderResDefAudio::Wav { id, filename } => (seq!['#', 'W', 'A', 'V'] + crate::index::ascii_text(id.0@), filename),
        BmsHeaderResDefAudio::ExWav { id, params } => (seq!['#', 'E', 'X', 'W', 'A', 'V'] + crate::index::ascii_text(id.0@), crate::params::exwav_text(params)),
        BmsHeaderResDefAudio::WavCmd { params } => (seq!['#', 'W', 'A', 'V', 'C', 'M', 'D'], crate::params::wav_cmd_code(params.command) + seq![' '] + crate::index::ascii_text(params.wav_index.0@) + seq![' '] + crate::text::dec(params.value as nat)),
        BmsHeaderResDefAudio::Cdda(v) => (seq!['#', 'C', 'D', 'D', 'A'], v),
        BmsHeaderResDefAudio::Midifile(v) => (seq!['#', 'M', 'I', 'D', 'I', 'F', 'I', 'L', 'E'], v),
        BmsHeaderResDefAudio::PathWav(v) => (seq!['#', 'P', 'A', 'T', 'H', '_', 'W', 'A', 'V'], v),
    }
}

impl BmsHeaderResDefAudio<String> {
    /// The command and the value of this header (see [`res_def_audio_text`]).
    pub fn format_header(&self) -> (r: (String, String))
        ensures
            (r.0@, r.1@) == res_def_audio_text(self@),
    {
        match self {
            BmsHeaderResDefAudio::Wav { id, filename } => (crate::header::cmd_with_id(&['#', 'W', 'A', 'V'], &id.0), filename.clone()),
            BmsHeaderResDefAudio::ExWav { id, params } => (crate::header::cmd_with_id(&['#', 'E', 'X', 'W', 'A', 'V'], &id.0), params.to_string()),
            BmsHeaderResDefAudio::WavCmd { params } => (crate::text::string_from(&['#', 'W', 'A', 'V', 'C', 'M', 'D']), params.to_string()),
            BmsHeaderResDefAudio::Cdda(v) => (crate::text::string_from(&['#', 'C', 'D', 'D', 'A']), v.clone()),
            BmsHeaderResDefAudio::Midifile(v) => (crate::text::string_from(&['#', 'M', 'I', 'D', 'I', 'F', 'I', 'L', 'E']), v.clone()),
            BmsHeaderResDefAudio::PathWav(v) => (crate::text::string_from(&['#', 'P', 'A', 'T', 'H', '_', 'W', 'A', 'V']), v.clone()),
        }
    }
}

/// Writing a header of this group and reading back its command (after the
/// prefix) and its value gives the same header,
/// for a header that reading can give: valid indices and `#EXWAV` /
/// `#WAVCMD` values as reading gives them.
pub proof fn lemma_res_def_audio_roundtrip(h: BmsHeaderResDefAudio<Seq<char>>)
    requires
        (h matches BmsHeaderResDefAudio::Wav { id, .. } ==> crate::index::index_text_ok(crate::index::ascii_text(id.0@))),
        (h matches BmsHeaderResDefAudio::ExWav { id, .. } ==> crate::index::index_text_ok(crate::index::ascii_text(id.0@))),
        (h matches BmsHeaderResDefAudio::ExWav { params: v, .. } ==> crate::params::exwav_reads_back(v)),
        (h matches BmsHeaderResDefAudio::WavCmd { params: v } ==> crate::params::wav_cmd_reads_back(v)),
    ensures
        res_def_audio_of(res_def_audio_text(h).0.drop_first(), res_def_audio_text(h).1) == Ok::<Option<BmsHeaderResDefAudio<Seq<char>>>, crate::error::BmsTokenizeError<Seq<char>>>(Some(h)),
{
    match h {
        BmsHeaderResDefAudio::Wav { id, filename: v } => {
            let c = seq!['W', 'A', 'V'] + crate::index::ascii_text(id.0@);
            assert(c.take(3) =~= seq!['W', 'A', 'V']);
            assert(c.skip(3) =~= crate::index::ascii_text(id.0@));
            crate::index::lemma_index_text_roundtrip(id.0);
            assert(res_def_audio_text(h).0.drop_first() =~= c);
        },
        BmsHeaderResDefAudio::ExWav { id, params: v } => {
            let c = seq!['E', 'X', 'W', 'A', 'V'] + crate::index::ascii_text(id.0@);
            assert(c.take(5) =~= seq!['E', 'X', 'W', 'A', 'V']);
            assert(c.skip(5) =~= crate::index::ascii_text(id.0@));
            crate::index::lemma_index_text_roundtrip(id.0);
            assert(!crate::header::cmd_has_id(c, seq!['W', 'A', 'V']));
            crate::params::lemma_exwav_roundtrip(v);
            assert(res_def_audio_text(h).0.drop_first() =~= c);
        },
        BmsHeaderResDefAudio::WavCmd { params: v } => {
            let c = seq!['W', 'A', 'V', 'C', 'M', 'D'];
            assert(!crate::header::cmd_has_id(c, seq!['W', 'A', 'V']));
            assert(c.take(5)[0] == c[0]);
            crate::header::lemma_ne_at(c.take(5), seq!['E', 'X', 'W', 'A', 'V'], 0);
            crate::params::lemma_wav_cmd_roundtrip(v);
            assert(res_def_audio_text(h).0.drop_first() =~= c);
        },
        BmsHeaderResDefAudio::Cdda(v) => {
            let c = seq!['C', 'D', 'D', 'A'];
            assert(c.take(3)[0] == c[0]);
            crate::header::lemma_ne_at(c.take(3), seq!['W', 'A', 'V'], 0);
            assert(!crate::header::cmd_has_id(c, seq!['E', 'X', 'W', 'A', 'V']));
            crate::header::lemma_ne_len(c, seq!['W', 'A', 'V', 'C', 'M', 'D']);
            assert(res_def_audio_text(h).0.drop_first() =~= c);
        },
        BmsHeaderResDefAudio::Midifile(v) => {
            let c = seq!['M', 'I', 'D', 'I', 'F', 'I', 'L', 'E'];
            assert(!crate::header::cmd_has_id(c, seq!['W', 'A', 'V']));
            assert(!crate::header::cmd_has_id(c, seq!['E', 'X', 'W', 'A', 'V']));
            crate::header::lemma_ne_len(c, seq!['W', 'A', 'V', 'C', 'M', 'D']);
            crate::header::lemma_ne_len(c, seq!['C', 'D', 'D', 'A']);
            assert(res_def_audio_text(h).0.drop_first() =~= c);
        },
        BmsHeaderResDefAudio::PathWav(v) => {
            let c = seq!['P', 'A', 'T', 'H', '_', 'W', 'A', 'V'];
            assert(!crate::header::cmd_has_id(c, seq!['W', 'A', 'V']));
            assert(!crate::header::cmd_has_id(c, seq!['E', 'X', 'W', 'A', 'V']));
            crate::header::lemma_ne_len(c, seq!['W', 'A', 'V', 'C', 'M', 'D']);
            crate::header::lemma_ne_len(c, seq!['C', 'D', 'D', 'A']);
            crate::header::lemma_ne_at(c, seq!['M', 'I', 'D', 'I', 'F', 'I', 'L', 'E'], 0);
            assert(res_def_audio_text(h).0.drop_first() =~= c);
        },
    }
}

} // verus!
