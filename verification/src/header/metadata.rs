//! Song and chart metadata: `#TITLE`, `#SUBTITLE`, `#ARTIST`, `#SUBARTIST`,
//! `#GENRE`, `#MAKER`, `#COMMENT`, `#TEXT` / `#SONG`, `#CHARSET`, `%URL`,
//! `%EMAIL`.

use vstd::prelude::*;

use crate::error::{outcome_view, BmsTokenizeError};
use crate::header::cmd_has_id;
use crate::text::eq_ignore_case;
use crate::index::{index_from_text, index_text_ok, BmsIndex, TextIndex};

verus! {

/// Song and chart identification headers.
#[derive(Debug, Clone, PartialEq)]
pub enum BmsHeaderMetadata<C = String> {
    /// `#TITLE`: the song title.
    Title(C),
    /// `#SUBTITLE`: the subtitle.
    Subtitle(C),
    /// `#ARTIST`: the artist.
    Artist(C),
    /// `#SUBARTIST`: further credits.
    SubArtist(C),
    /// `#GENRE` (or the common misspelling `#GENLE`): the genre.
    Genre(C),
    /// `#MAKER`: the chart author.
    Maker(C),
    /// `#COMMENT`: a free comment.
    Comment(C),
    /// `#TEXT{id}` / `#SONG{id}`: timed on-screen text.
    Text {
        /// The index.
        id: TextIndex,
        /// The value.
        value: C,
    },
    /// `#CHARSET`: the declared text encoding.
    Charset(C),
    /// `%URL`: a web page.
    Url(C),
    /// `%EMAIL`: a contact address.
    Email(C),
}

impl View for BmsHeaderMetadata<String> {
    type V = BmsHeaderMetadata<Seq<char>>;

    open spec fn view(&self) -> BmsHeaderMetadata<Seq<char>> {
        match self {
            BmsHeaderMetadata::Title(x) => BmsHeaderMetadata::Title(x@),
            BmsHeaderMetadata::Subtitle(x) => BmsHeaderMetadata::Subtitle(x@),
            BmsHeaderMetadata::Artist(x) => BmsHeaderMetadata::Artist(x@),
            BmsHeaderMetadata::SubArtist(x) => BmsHeaderMetadata::SubArtist(x@),
            BmsHeaderMetadata::Genre(x) => BmsHeaderMetadata::Genre(x@),
            BmsHeaderMetadata::Maker(x) => BmsHeaderMetadata::Maker(x@),
            BmsHeaderMetadata::Comment(x) => BmsHeaderMetadata::Comment(x@),
            BmsHeaderMetadata::Text { id, value } => BmsHeaderMetadata::Text { id: *id, value: value@ },
            BmsHeaderMetadata::Charset(x) => BmsHeaderMetadata::Charset(x@),
            BmsHeaderMetadata::Url(x) => BmsHeaderMetadata::Url(x@),
            BmsHeaderMetadata::Email(x) => BmsHeaderMetadata::Email(x@),
        }
    }
}

/// The header that `cmd` and `val` denote among the BmsHeaderMetadata patterns, in
/// declaration order: `Ok(None)` when none matches.
pub open spec fn metadata_of(cmd: Seq<char>, val: Seq<char>) -> Result<
    Option<BmsHeaderMetadata<Seq<char>>>,
    BmsTokenizeError<Seq<char>>,
> {
    if eq_ignore_case(cmd, seq!['T', 'I', 'T', 'L', 'E']) {
        Ok(Some(BmsHeaderMetadata::Title(val)))
    } else if eq_ignore_case(cmd, seq!['S', 'U', 'B', 'T', 'I', 'T', 'L', 'E']) {
        Ok(Some(BmsHeaderMetadata::Subtitle(val)))
    } else if eq_ignore_case(cmd, seq!['A', 'R', 'T', 'I', 'S', 'T']) {
        Ok(Some(BmsHeaderMetadata::Artist(val)))
    } else if eq_ignore_case(cmd, seq!['S', 'U', 'B', 'A', 'R', 'T', 'I', 'S', 'T']) {
        Ok(Some(BmsHeaderMetadata::SubArtist(val)))
    } else if eq_ignore_case(cmd, seq!['G', 'E', 'N', 'R', 'E']) {
        Ok(Some(BmsHeaderMetadata::Genre(val)))
    } else if eq_ignore_case(cmd, seq!['G', 'E', 'N', 'L', 'E']) {
        Ok(Some(BmsHeaderMetadata::Genre(val)))
    } else if eq_ignore_case(cmd, seq!['M', 'A', 'K', 'E', 'R']) {
        Ok(Some(BmsHeaderMetadata::Maker(val)))
    } else if eq_ignore_case(cmd, seq!['C', 'O', 'M', 'M', 'E', 'N', 'T']) {
        Ok(Some(BmsHeaderMetadata::Comment(val)))
    } else if cmd_has_id(cmd, seq!['T', 'E', 'X', 'T']) {
        if index_text_ok(cmd.skip(4)) {
            Ok(Some(BmsHeaderMetadata::Text { id: TextIndex(index_from_text(cmd.skip(4))), value: val }))
        } else {
            Err(BmsTokenizeError::InvalidInteger { value: cmd.skip(4) })
        }
    } else if cmd_has_id(cmd, seq!['S', 'O', 'N', 'G']) {
        if index_text_ok(cmd.skip(4)) {
            Ok(Some(BmsHeaderMetadata::Text { id: TextIndex(index_from_text(cmd.skip(4))), value: val }))
        } else {
            Err(BmsTokenizeError::InvalidInteger { value: cmd.skip(4) })
        }
    } else if eq_ignore_case(cmd, seq!['C', 'H', 'A', 'R', 'S', 'E', 'T']) {
        Ok(Some(BmsHeaderMetadata::Charset(val)))
    } else if eq_ignore_case(cmd, seq!['U', 'R', 'L']) {
        Ok(Some(BmsHeaderMetadata::Url(val)))
    } else if eq_ignore_case(cmd, seq!['E', 'M', 'A', 'I', 'L']) {
        Ok(Some(BmsHeaderMetadata::Email(val)))
    } else {
        Ok(None)
    }
}

impl BmsHeaderMetadata<String> {

    /// Matches a command name and a value against this group's patterns.
    pub fn try_match_header(cmd: &str, val: &str) -> (r: Result<Option<Self>, BmsTokenizeError<String>>)
        ensures
            outcome_view(r) == metadata_of(cmd@, val@),
    {
        let c = crate::text::chars_of(cmd);
        let v = crate::text::chars_of(val);
        Self::match_chars(&c, &v)
    }
    /// Matches a command name and value against the BmsHeaderMetadata patterns.
    pub fn match_chars(cmd: &[char], val: &[char]) -> (r: Result<
        Option<Self>,
        BmsTokenizeError<String>,
    >)
        ensures
            outcome_view(r) == metadata_of(cmd@, val@),
    {
        let n = cmd.len();
        proof {
            assert(cmd@.subrange(0, n as int) =~= cmd@);
            assert(val@.subrange(0, val@.len() as int) =~= val@);
        }
        if crate::text::range_eq_ignore_case(cmd, 0, n, &['T', 'I', 'T', 'L', 'E']) {
            return Ok(Some(BmsHeaderMetadata::Title(crate::text::string_from(val))));
        }
        if crate::text::range_eq_ignore_case(cmd, 0, n, &['S', 'U', 'B', 'T', 'I', 'T', 'L', 'E']) {
            return Ok(Some(BmsHeaderMetadata::Subtitle(crate::text::string_from(val))));
        }
        if crate::text::range_eq_ignore_case(cmd, 0, n, &['A', 'R', 'T', 'I', 'S', 'T']) {
            return Ok(Some(BmsHeaderMetadata::Artist(crate::text::string_from(val))));
        }
        if crate::text::range_eq_ignore_case(cmd, 0, n, &['S', 'U', 'B', 'A', 'R', 'T', 'I', 'S', 'T']) {
            return Ok(Some(BmsHeaderMetadata::SubArtist(crate::text::string_from(val))));
        }
        if crate::text::range_eq_ignore_case(cmd, 0, n, &['G', 'E', 'N', 'R', 'E']) {
            return Ok(Some(BmsHeaderMetadata::Genre(crate::text::string_from(val))));
        }
        if crate::text::range_eq_ignore_case(cmd, 0, n, &['G', 'E', 'N', 'L', 'E']) {
            return Ok(Some(BmsHeaderMetadata::Genre(crate::text::string_from(val))));
        }
        if crate::text::range_eq_ignore_case(cmd, 0, n, &['M', 'A', 'K', 'E', 'R']) {
            return Ok(Some(BmsHeaderMetadata::Maker(crate::text::string_from(val))));
        }
        if crate::text::range_eq_ignore_case(cmd, 0, n, &['C', 'O', 'M', 'M', 'E', 'N', 'T']) {
            return Ok(Some(BmsHeaderMetadata::Comment(crate::text::string_from(val))));
        }
        if n > 4 && n <= 6 && crate::text::range_eq_ignore_case(cmd, 0, 4, &['T', 'E', 'X', 'T']) {
            let i = match BmsIndex::parse_chars(cmd, 4, n) {
                Some(i) => i,
                None => {
                    return Err(
                        BmsTokenizeError::InvalidInteger {
                            value: crate::text::string_from_range(cmd, 4, n),
                        },
                    );
                },
            };
            return Ok(Some(BmsHeaderMetadata::Text { id: TextIndex(i), value: crate::text::string_from(val) }));
        }
        if n > 4 && n <= 6 && crate::text::range_eq_ignore_case(cmd, 0, 4, &['S', 'O', 'N', 'G']) {
            let i = match BmsIndex::parse_chars(cmd, 4, n) {
                Some(i) => i,
                None => {
                    return Err(
                        BmsTokenizeError::InvalidInteger {
                            value: crate::text::string_from_range(cmd, 4, n),
                        },
                    );
                },
            };
            return Ok(Some(BmsHeaderMetadata::Text { id: TextIndex(i), value: crate::text::string_from(val) }));
        }
        if crate::text::range_eq_ignore_case(cmd, 0, n, &['C', 'H', 'A', 'R', 'S', 'E', 'T']) {
            return Ok(Some(BmsHeaderMetadata::Charset(crate::text::string_from(val))));
        }
        if crate::text::range_eq_ignore_case(cmd, 0, n, &['U', 'R', 'L']) {
            return Ok(Some(BmsHeaderMetadata::Url(crate::text::string_from(val))));
        }
        if crate::text::range_eq_ignore_case(cmd, 0, n, &['E', 'M', 'A', 'I', 'L']) {
            return Ok(Some(BmsHeaderMetadata::Email(crate::text::string_from(val))));
        }
        Ok(None)
    }
}

/// The command and the value of a header of this group as a BMS file writes
/// them: the command with its prefix (`%` for `URL` and `EMAIL`, `#`
/// otherwise), its first spelling and its index, and the value's text.
pub open spec fn metadata_text(h: BmsHeaderMetadata<Seq<char>>) -> (Seq<char>, Seq<char>) {
    match h {
        BmsHeaderMetadata::Title(v) => (seq!['#', 'T', 'I', 'T', 'L', 'E'], v),
        BmsHeaderMetadata::Subtitle(v) => (seq!['#', 'S', 'U', 'B', 'T', 'I', 'T', 'L', 'E'], v),
        BmsHeaderMetadata::Artist(v) => (seq!['#', 'A', 'R', 'T', 'I', 'S', 'T'], v),
        BmsHeaderMetadata::SubArtist(v) => (seq!['#', 'S', 'U', 'B', 'A', 'R', 'T', 'I', 'S', 'T'], v),
        BmsHeaderMetadata::Genre(v) => (seq!['#', 'G', 'E', 'N', 'R', 'E'], v),
        BmsHeaderMetadata::Maker(v) => (seq!['#', 'M', 'A', 'K', 'E', 'R'], v),
        BmsHeaderMetadata::Comment(v) => (seq!['#', 'C', 'O', 'M', 'M', 'E', 'N', 'T'], v),
        BmsHeaderMetadata::Text { id, value } => (seq!['#', 'T', 'E', 'X', 'T'] + crate::index::ascii_text(id.0@), value),
        BmsHeaderMetadata::Charset(v) => (seq!['#', 'C', 'H', 'A', 'R', 'S', 'E', 'T'], v),
        BmsHeaderMetadata::Url(v) => (seq!['%', 'U', 'R', 'L'], v),
        BmsHeaderMetadata::Email(v) => (seq!['%', 'E', 'M', 'A', 'I', 'L'], v),
    }
}

impl BmsHeaderMetadata<String> {
    /// The command and the value of this header (see [`metadata_text`]).
    pub fn format_header(&self) -> (r: (String, String))
        ensures
            (r.0@, r.1@) == metadata_text(self@),
    {
        match self {
            BmsHeaderMetadata::Title(v) => (crate::text::string_from(&['#', 'T', 'I', 'T', 'L', 'E']), v.clone()),
            BmsHeaderMetadata::Subtitle(v) => (crate::text::string_from(&['#', 'S', 'U', 'B', 'T', 'I', 'T', 'L', 'E']), v.clone()),
            BmsHeaderMetadata::Artist(v) => (crate::text::string_from(&['#', 'A', 'R', 'T', 'I', 'S', 'T']), v.clone()),
            BmsHeaderMetadata::SubArtist(v) => (crate::text::string_from(&['#', 'S', 'U', 'B', 'A', 'R', 'T', 'I', 'S', 'T']), v.clone()),
            BmsHeaderMetadata::Genre(v) => (crate::text::string_from(&['#', 'G', 'E', 'N', 'R', 'E']), v.clone()),
            BmsHeaderMetadata::Maker(v) => (crate::text::string_from(&['#', 'M', 'A', 'K', 'E', 'R']), v.clone()),
            BmsHeaderMetadata::Comment(v) => (crate::text::string_from(&['#', 'C', 'O', 'M', 'M', 'E', 'N', 'T']), v.clone()),
            BmsHeaderMetadata::Text { id, value } => (crate::header::cmd_with_id(&['#', 'T', 'E', 'X', 'T'], &id.0), value.clone()),
            BmsHeaderMetadata::Charset(v) => (crate::text::string_from(&['#', 'C', 'H', 'A', 'R', 'S', 'E', 'T']), v.clone()),
            BmsHeaderMetadata::Url(v) => (crate::text::string_from(&['%', 'U', 'R', 'L']), v.clone()),
            BmsHeaderMetadata::Email(v) => (crate::text::string_from(&['%', 'E', 'M', 'A', 'I', 'L']), v.clone()),
        }
    }
}

/// Writing a header of this group and reading back its command (after the
/// prefix) and its value gives the same header, for a header whose index is valid.
pub proof fn lemma_metadata_roundtrip(h: BmsHeaderMetadata<Seq<char>>)
    requires
        (h matches BmsHeaderMetadata::Text { id, .. } ==> crate::index::index_text_ok(crate::index::ascii_text(id.0@))),
    ensures
        metadata_of(metadata_text(h).0.drop_first(), metadata_text(h).1) == Ok::<Option<BmsHeaderMetadata<Seq<char>>>, crate::error::BmsTokenizeError<Seq<char>>>(Some(h)),
{
    match h {
        BmsHeaderMetadata::Title(v) => {
            let c = seq!['T', 'I', 'T', 'L', 'E'];
            assert(metadata_text(h).0.drop_first() =~= c);
        },
        BmsHeaderMetadata::Subtitle(v) => {
            let c = seq!['S', 'U', 'B', 'T', 'I', 'T', 'L', 'E'];
            crate::header::lemma_ne_len(c, seq!['T', 'I', 'T', 'L', 'E']);
            assert(metadata_text(h).0.drop_first() =~= c);
        },
        BmsHeaderMetadata::Artist(v) => {
            let c = seq!['A', 'R', 'T', 'I', 'S', 'T'];
            crate::header::lemma_ne_len(c, seq!['T', 'I', 'T', 'L', 'E']);
            crate::header::lemma_ne_len(c, seq!['S', 'U', 'B', 'T', 'I', 'T', 'L', 'E']);
            assert(metadata_text(h).0.drop_first() =~= c);
        },
        BmsHeaderMetadata::SubArtist(v) => {
            let c = seq!['S', 'U', 'B', 'A', 'R', 'T', 'I', 'S', 'T'];
            crate::header::lemma_ne_len(c, seq!['T', 'I', 'T', 'L', 'E']);
            crate::header::lemma_ne_len(c, seq!['S', 'U', 'B', 'T', 'I', 'T', 'L', 'E']);
            crate::header::lemma_ne_len(c, seq!['A', 'R', 'T', 'I', 'S', 'T']);
            assert(metadata_text(h).0.drop_first() =~= c);
        },
        BmsHeaderMetadata::Genre(v) => {
            let c = seq!['G', 'E', 'N', 'R', 'E'];
            crate::header::lemma_ne_at(c, seq!['T', 'I', 'T', 'L', 'E'], 0);
            crate::header::lemma_ne_len(c, seq!['S', 'U', 'B', 'T', 'I', 'T', 'L', 'E']);
            crate::header::lemma_ne_len(c, seq!['A', 'R', 'T', 'I', 'S', 'T']);
            crate::header::lemma_ne_len(c, seq!['S', 'U', 'B', 'A', 'R', 'T', 'I', 'S', 'T']);
            assert(metadata_text(h).0.drop_first() =~= c);
        },
        BmsHeaderMetadata::Maker(v) => {
            let c = seq!['M', 'A', 'K', 'E', 'R'];
            crate::header::lemma_ne_at(c, seq!['T', 'I', 'T', 'L', 'E'], 0);
            crate::header::lemma_ne_len(c, seq!['S', 'U', 'B', 'T', 'I', 'T', 'L', 'E']);
            crate::header::lemma_ne_len(c, seq!['A', 'R', 'T', 'I', 'S', 'T']);
            crate::header::lemma_ne_len(c, seq!['S', 'U', 'B', 'A', 'R', 'T', 'I', 'S', 'T']);
            crate::header::lemma_ne_at(c, seq!['G', 'E', 'N', 'R', 'E'], 0);
            crate::header::lemma_ne_at(c, seq!['G', 'E', 'N', 'L', 'E'], 0);
            assert(metadata_text(h).0.drop_first() =~= c);
        },
        BmsHeaderMetadata::Comment(v) => {
            let c = seq!['C', 'O', 'M', 'M', 'E', 'N', 'T'];
            crate::header::lemma_ne_len(c, seq!['T', 'I', 'T', 'L', 'E']);
            crate::header::lemma_ne_len(c, seq!['S', 'U', 'B', 'T', 'I', 'T', 'L', 'E']);
            crate::header::lemma_ne_len(c, seq!['A', 'R', 'T', 'I', 'S', 'T']);
            crate::header::lemma_ne_len(c, seq!['S', 'U', 'B', 'A', 'R', 'T', 'I', 'S', 'T']);
            crate::header::lemma_ne_len(c, seq!['G', 'E', 'N', 'R', 'E']);
            crate::header::lemma_ne_len(c, seq!['G', 'E', 'N', 'L', 'E']);
            crate::header::lemma_ne_len(c, seq!['M', 'A', 'K', 'E', 'R']);
            assert(metadata_text(h).0.drop_first() =~= c);
        },
        BmsHeaderMetadata::Text { id, value } => {
            let c = seq!['T', 'E', 'X', 'T'] + crate::index::ascii_text(id.0@);
            assert(c.take(4) =~= seq!['T', 'E', 'X', 'T']);
            assert(c.skip(4) =~= crate::index::ascii_text(id.0@));
            crate::index::lemma_index_text_roundtrip(id.0);
            if c.len() == 5 { crate::header::lemma_ne_at(c, seq!['T', 'I', 'T', 'L', 'E'], 1); } else { crate::header::lemma_ne_len(c, seq!['T', 'I', 'T', 'L', 'E']); }
            crate::header::lemma_ne_len(c, seq!['S', 'U', 'B', 'T', 'I', 'T', 'L', 'E']);
            if c.len() == 6 { crate::header::lemma_ne_at(c, seq!['A', 'R', 'T', 'I', 'S', 'T'], 0); } else { crate::header::lemma_ne_len(c, seq!['A', 'R', 'T', 'I', 'S', 'T']); }
            crate::header::lemma_ne_len(c, seq!['S', 'U', 'B', 'A', 'R', 'T', 'I', 'S', 'T']);
            if c.len() == 5 { crate::header::lemma_ne_at(c, seq!['G', 'E', 'N', 'R', 'E'], 0); } else { crate::header::lemma_ne_len(c, seq!['G', 'E', 'N', 'R', 'E']); }
            if c.len() == 5 { crate::header::lemma_ne_at(c, seq!['G', 'E', 'N', 'L', 'E'], 0); } else { crate::header::lemma_ne_len(c, seq!['G', 'E', 'N', 'L', 'E']); }
            if c.len() == 5 { crate::header::lemma_ne_at(c, seq!['M', 'A', 'K', 'E', 'R'], 0); } else { crate::header::lemma_ne_len(c, seq!['M', 'A', 'K', 'E', 'R']); }
            crate::header::lemma_ne_len(c, seq!['C', 'O', 'M', 'M', 'E', 'N', 'T']);
            assert(metadata_text(h).0.drop_first() =~= c);
        },
        BmsHeaderMetadata::Charset(v) => {
            let c = seq!['C', 'H', 'A', 'R', 'S', 'E', 'T'];
            crate::header::lemma_ne_len(c, seq!['T', 'I', 'T', 'L', 'E']);
            crate::header::lemma_ne_len(c, seq!['S', 'U', 'B', 'T', 'I', 'T', 'L', 'E']);
            crate::header::lemma_ne_len(c, seq!['A', 'R', 'T', 'I', 'S', 'T']);
            crate::header::lemma_ne_len(c, seq!['S', 'U', 'B', 'A', 'R', 'T', 'I', 'S', 'T']);
            crate::header::lemma_ne_len(c, seq!['G', 'E', 'N', 'R', 'E']);
            crate::header::lemma_ne_len(c, seq!['G', 'E', 'N', 'L', 'E']);
            crate::header::lemma_ne_len(c, seq!['M', 'A', 'K', 'E', 'R']);
            crate::header::lemma_ne_at(c, seq!['C', 'O', 'M', 'M', 'E', 'N', 'T'], 1);
            assert(!crate::header::cmd_has_id(c, seq!['T', 'E', 'X', 'T']));
            assert(!crate::header::cmd_has_id(c, seq!['S', 'O', 'N', 'G']));
            assert(metadata_text(h).0.drop_first() =~= c);
        },
        BmsHeaderMetadata::Url(v) => {
            let c = seq!['U', 'R', 'L'];
            crate::header::lemma_ne_len(c, seq!['T', 'I', 'T', 'L', 'E']);
            crate::header::lemma_ne_len(c, seq!['S', 'U', 'B', 'T', 'I', 'T', 'L', 'E']);
            crate::header::lemma_ne_len(c, seq!['A', 'R', 'T', 'I', 'S', 'T']);
            crate::header::lemma_ne_len(c, seq!['S', 'U', 'B', 'A', 'R', 'T', 'I', 'S', 'T']);
            crate::header::lemma_ne_len(c, seq!['G', 'E', 'N', 'R', 'E']);
            crate::header::lemma_ne_len(c, seq!['G', 'E', 'N', 'L', 'E']);
            crate::header::lemma_ne_len(c, seq!['M', 'A', 'K', 'E', 'R']);
            crate::header::lemma_ne_len(c, seq!['C', 'O', 'M', 'M', 'E', 'N', 'T']);
            assert(!crate::header::cmd_has_id(c, seq!['T', 'E', 'X', 'T']));
            assert(!crate::header::cmd_has_id(c, seq!['S', 'O', 'N', 'G']));
            crate::header::lemma_ne_len(c, seq!['C', 'H', 'A', 'R', 'S', 'E', 'T']);
            assert(metadata_text(h).0.drop_first() =~= c);
        },
        BmsHeaderMetadata::Email(v) => {
            let c = seq!['E', 'M', 'A', 'I', 'L'];
            crate::header::lemma_ne_at(c, seq!['T', 'I', 'T', 'L', 'E'], 0);
            crate::header::lemma_ne_len(c, seq!['S', 'U', 'B', 'T', 'I', 'T', 'L', 'E']);
            crate::header::lemma_ne_len(c, seq!['A', 'R', 'T', 'I', 'S', 'T']);
            crate::header::lemma_ne_len(c, seq!['S', 'U', 'B', 'A', 'R', 'T', 'I', 'S', 'T']);
            crate::header::lemma_ne_at(c, seq!['G', 'E', 'N', 'R', 'E'], 0);
            crate::header::lemma_ne_at(c, seq!['G', 'E', 'N', 'L', 'E'], 0);
            crate::header::lemma_ne_at(c, seq!['M', 'A', 'K', 'E', 'R'], 0);
            crate::header::lemma_ne_len(c, seq!['C', 'O', 'M', 'M', 'E', 'N', 'T']);
            assert(c.take(4)[0] == c[0]);
            crate::header::lemma_ne_at(c.take(4), seq!['T', 'E', 'X', 'T'], 0);
            assert(c.take(4)[0] == c[0]);
            crate::header::lemma_ne_at(c.take(4), seq!['S', 'O', 'N', 'G'], 0);
            crate::header::lemma_ne_len(c, seq!['C', 'H', 'A', 'R', 'S', 'E', 'T']);
            crate::header::lemma_ne_len(c, seq!['U', 'R', 'L']);
            assert(metadata_text(h).0.drop_first() =~= c);
        },
    }
}

} // verus!
