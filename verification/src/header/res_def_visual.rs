//! Image and video resource headers: `#BMP`, `#EXBMP`, `#BGA`, `#@BGA`,
//! `#POORBGA`, `#SWBGA`, `#ARGB`, `#VIDEOFILE`, `#MOVIE`, `#SEEK`, `#ExtChr`,
//! `#VIDEOf/s`, `#VIDEOCOLORS`, `#VIDEODLY`.

use vstd::prelude::*;

use crate::error::{outcome_view, BmsTokenizeError};
use crate::header::cmd_has_id;
use crate::text::{eq_ignore_case, is_float_literal};
use crate::index::{index_from_text, index_text_ok, BmpIndex, BmsIndex, SeekIndex};
use crate::params::{argb_params_of, at_bga_of, bga_of, ex_bmp_of, sw_bga_of, ArgbParams, AtBgaParams, BgaParams, ExBmpParams, SwBgaParams};
use crate::value::{poor_bga_mode_of, PoorBgaMode};

verus! {

/// Image and video resource headers.
#[derive(Debug, Clone, PartialEq)]
pub enum BmsHeaderResDefVisual<C = String> {
    /// `#BMP{id}`: an image file.
    Bmp {
        /// The index.
        id: BmpIndex,
        /// The value.
        filename: C,
    },
    /// `#EXBMP{id}`: an image file with a colour.
    ExBmp {
        /// The index.
        id: BmpIndex,
        /// The value.
        params: ExBmpParams<C>,
    },
    /// `#BGA{id}`: a rectangle copied from an image.
    Bga {
        /// The index.
        id: BmpIndex,
        /// The value.
        params: BgaParams,
    },
    /// `#@BGA{id}`: a rectangle copied from an image, by size.
    AtBga {
        /// The index.
        id: BmpIndex,
        /// The value.
        params: AtBgaParams,
    },
    /// `#POORBGA`: how the POOR image is shown.
    PoorBga(PoorBgaMode),
    /// `#SWBGA{id}`: a key-bound animation.
    SwBga {
        /// The index.
        id: BmpIndex,
        /// The value.
        params: SwBgaParams<C>,
    },
    /// `#ARGB{id}`: a layer colour.
    Argb {
        /// The index.
        id: BmpIndex,
        /// The value.
        params: ArgbParams,
    },
    /// `#VIDEOFILE`: a background video.
    VideoFile(C),
    /// `#MOVIE`: a background video.
    Movie(C),
    /// `#SEEK{id}`: a video position, as its literal.
    Seek {
        /// The index.
        id: SeekIndex,
        /// The value.
        value: C,
    },
    /// `#ExtChr`: an extended character definition.
    ExtChr(C),
    /// `#VIDEOf/s`: the video frame rate, as its literal.
    VideoFps(C),
    /// `#VIDEOCOLORS`: the video colour depth, as its literal.
    VideoColors(C),
    /// `#VIDEODLY`: the video delay, as its literal.
    VideoDly(C),
}

impl View for BmsHeaderResDefVisual<String> {
    type V = BmsHeaderResDefVisual<Seq<char>>;

    open spec fn view(&self) -> BmsHeaderResDefVisual<Seq<char>> {
        match self {
            BmsHeaderResDefVisual::Bmp { id, filename } => BmsHeaderResDefVisual::Bmp { id: *id, filename: filename@ },
            BmsHeaderResDefVisual::ExBmp { id, params } => BmsHeaderResDefVisual::ExBmp { id: *id, params: params@ },
            BmsHeaderResDefVisual::Bga { id, params } => BmsHeaderResDefVisual::Bga { id: *id, params: *params },
            BmsHeaderResDefVisual::AtBga { id, params } => BmsHeaderResDefVisual::AtBga { id: *id, params: *params },
            BmsHeaderResDefVisual::PoorBga(x) => BmsHeaderResDefVisual::PoorBga(*x),
            BmsHeaderResDefVisual::SwBga { id, params } => BmsHeaderResDefVisual::SwBga { id: *id, params: params@ },
            BmsHeaderResDefVisual::Argb { id, params } => BmsHeaderResDefVisual::Argb { id: *id, params: *params },
            BmsHeaderResDefVisual::VideoFile(x) => BmsHeaderResDefVisual::VideoFile(x@),
            BmsHeaderResDefVisual::Movie(x) => BmsHeaderResDefVisual::Movie(x@),
            BmsHeaderResDefVisual::Seek { id, value } => BmsHeaderResDefVisual::Seek { id: *id, value: value@ },
            BmsHeaderResDefVisual::ExtChr(x) => BmsHeaderResDefVisual::ExtChr(x@),
            BmsHeaderResDefVisual::VideoFps(x) => BmsHeaderResDefVisual::VideoFps(x@),
            BmsHeaderResDefVisual::VideoColors(x) => BmsHeaderResDefVisual::VideoColors(x@),
            BmsHeaderResDefVisual::VideoDly(x) => BmsHeaderResDefVisual::VideoDly(x@),
        }
    }
}

/// The header that `cmd` and `val` denote among the BmsHeaderResDefVisual patterns, in
/// declaration order: `Ok(None)` when none matches.
pub open spec fn res_def_visual_of(cmd: Seq<char>, val: Seq<char>) -> Result<
    Option<BmsHeaderResDefVisual<Seq<char>>>,
    BmsTokenizeError<Seq<char>>,
> {
    if cmd_has_id(cmd, seq!['B', 'M', 'P']) {
        if index_text_ok(cmd.skip(3)) {
            Ok(Some(BmsHeaderResDefVisual::Bmp { id: BmpIndex(index_from_text(cmd.skip(3))), filename: val }))
        } else {
            Err(BmsTokenizeError::InvalidInteger { value: cmd.skip(3) })
        }
    } else if cmd_has_id(cmd, seq!['E', 'X', 'B', 'M', 'P']) && index_text_ok(cmd.skip(5)) && ex_bmp_of(val) is Some {
        Ok(Some(BmsHeaderResDefVisual::ExBmp { id: BmpIndex(index_from_text(cmd.skip(5))), params: ex_bmp_of(val).unwrap() }))
    } else if cmd_has_id(cmd, seq!['B', 'G', 'A']) && index_text_ok(cmd.skip(3)) && bga_of(val) is Some {
        Ok(Some(BmsHeaderResDefVisual::Bga { id: BmpIndex(index_from_text(cmd.skip(3))), params: bga_of(val).unwrap() }))
    } else if cmd_has_id(cmd, seq!['@', 'B', 'G', 'A']) && index_text_ok(cmd.skip(4)) && at_bga_of(val) is Some {
        Ok(Some(BmsHeaderResDefVisual::AtBga { id: BmpIndex(index_from_text(cmd.skip(4))), params: at_bga_of(val).unwrap() }))
    } else if eq_ignore_case(cmd, seq!['P', 'O', 'O', 'R', 'B', 'G', 'A']) && poor_bga_mode_of(val) is Some {
        Ok(Some(BmsHeaderResDefVisual::PoorBga(poor_bga_mode_of(val).unwrap())))
    } else if cmd_has_id(cmd, seq!['S', 'W', 'B', 'G', 'A']) && index_text_ok(cmd.skip(5)) && sw_bga_of(val) is Some {
        Ok(Some(BmsHeaderResDefVisual::SwBga { id: BmpIndex(index_from_text(cmd.skip(5))), params: sw_bga_of(val).unwrap() }))
    } else if cmd_has_id(cmd, seq!['A', 'R', 'G', 'B']) && index_text_ok(cmd.skip(4)) && argb_params_of(val) is Some {
        Ok(Some(BmsHeaderResDefVisual::Argb { id: BmpIndex(index_from_text(cmd.skip(4))), params: argb_params_of(val).unwrap() }))
    } else if eq_ignore_case(cmd, seq!['V', 'I', 'D', 'E', 'O', 'F', 'I', 'L', 'E']) {
        Ok(Some(BmsHeaderResDefVisual::VideoFile(val)))
    } else if eq_ignore_case(cmd, seq!['M', 'O', 'V', 'I', 'E']) {
        Ok(Some(BmsHeaderResDefVisual::Movie(val)))
    } else if cmd_has_id(cmd, seq!['S', 'E', 'E', 'K']) {
        if index_text_ok(cmd.skip(4)) {
            if is_float_literal(val) {
            Ok(Some(BmsHeaderResDefVisual::Seek { id: SeekIndex(index_from_text(cmd.skip(4))), value: val }))
        } else {
            Err(BmsTokenizeError::InvalidFloat { value: val })
        }
        } else {
            Err(BmsTokenizeError::InvalidInteger { value: cmd.skip(4) })
        }
    } else if eq_ignore_case(cmd, seq!['E', 'X', 'T', 'C', 'H', 'R']) {
        Ok(Some(BmsHeaderResDefVisual::ExtChr(val)))
    } else if eq_ignore_case(cmd, seq!['V', 'I', 'D', 'E', 'O', 'F', '/', 'S']) {
        if is_float_literal(val) {
            Ok(Some(BmsHeaderResDefVisual::VideoFps(val)))
        } else {
            Err(BmsTokenizeError::InvalidFloat { value: val })
        }
    } else if eq_ignore_case(cmd, seq!['V', 'I', 'D', 'E', 'O', 'C', 'O', 'L', 'O', 'R', 'S']) {
        if is_float_literal(val) {
            Ok(Some(BmsHeaderResDefVisual::VideoColors(val)))
        } else {
            Err(BmsTokenizeError::InvalidFloat { value: val })
        }
    } else if eq_ignore_case(cmd, seq!['V', 'I', 'D', 'E', 'O', 'D', 'L', 'Y']) {
        if is_float_literal(val) {
            Ok(Some(BmsHeaderResDefVisual::VideoDly(val)))
        } else {
            Err(BmsTokenizeError::InvalidFloat { value: val })
        }
    } else {
        Ok(None)
    }
}

impl BmsHeaderResDefVisual<String> {

    /// Matches a command name and a value against this group's patterns.
    pub fn try_match_header(cmd: &str, val: &str) -> (r: Result<Option<Self>, BmsTokenizeError<String>>)
        ensures
            outcome_view(r) == res_def_visual_of(cmd@, val@),
    {
        let c = crate::text::chars_of(cmd);
        let v = crate::text::chars_of(val);
        Self::match_chars(&c, &v)
    }
    /// Matches a command name and value against the BmsHeaderResDefVisual patterns.
    pub fn match_chars(cmd: &[char], val: &[char]) -> (r: Result<
        Option<Self>,
        BmsTokenizeError<String>,
    >)
        ensures
            outcome_view(r) == res_def_visual_of(cmd@, val@),
    {
        let n = cmd.len();
        proof {
            assert(cmd@.subrange(0, n as int) =~= cmd@);
            assert(val@.subrange(0, val@.len() as int) =~= val@);
        }
        if n > 3 && n <= 5 && crate::text::range_eq_ignore_case(cmd, 0, 3, &['B', 'M', 'P']) {
            let i = match BmsIndex::parse_chars(cmd, 3, n) {
                Some(i) => i,
                None => {
                    return Err(
                        BmsTokenizeError::InvalidInteger {
                            value: crate::text::string_from_range(cmd, 3, n),
                        },
                    );
                },
            };
            return Ok(Some(BmsHeaderResDefVisual::Bmp { id: BmpIndex(i), filename: crate::text::string_from(val) }));
        }
        if n > 5 && n <= 7 && crate::text::range_eq_ignore_case(cmd, 0, 5, &['E', 'X', 'B', 'M', 'P']) {
            if let (Some(i), Some(p)) = (BmsIndex::parse_chars(cmd, 5, n), ExBmpParams::from_chars(val, 0, val.len())) {
                return Ok(Some(BmsHeaderResDefVisual::ExBmp { id: BmpIndex(i), params: p }));
            }
        }
        if n > 3 && n <= 5 && crate::text::range_eq_ignore_case(cmd, 0, 3, &['B', 'G', 'A']) {
            if let (Some(i), Some(p)) = (BmsIndex::parse_chars(cmd, 3, n), BgaParams::from_chars(val, 0, val.len())) {
                return Ok(Some(BmsHeaderResDefVisual::Bga { id: BmpIndex(i), params: p }));
            }
        }
        if n > 4 && n <= 6 && crate::text::range_eq_ignore_case(cmd, 0, 4, &['@', 'B', 'G', 'A']) {
            if let (Some(i), Some(p)) = (BmsIndex::parse_chars(cmd, 4, n), AtBgaParams::from_chars(val, 0, val.len())) {
                return Ok(Some(BmsHeaderResDefVisual::AtBga { id: BmpIndex(i), params: p }));
            }
        }
        if crate::text::range_eq_ignore_case(cmd, 0, n, &['P', 'O', 'O', 'R', 'B', 'G', 'A']) {
            if let Some(p) = PoorBgaMode::from_chars(val, 0, val.len()) {
                return Ok(Some(BmsHeaderResDefVisual::PoorBga(p)));
            }
        }
        if n > 5 && n <= 7 && crate::text::range_eq_ignore_case(cmd, 0, 5, &['S', 'W', 'B', 'G', 'A']) {
            if let (Some(i), Some(p)) = (BmsIndex::parse_chars(cmd, 5, n), SwBgaParams::from_chars(val, 0, val.len())) {
                return Ok(Some(BmsHeaderResDefVisual::SwBga { id: BmpIndex(i), params: p }));
            }
        }
        if n > 4 && n <= 6 && crate::text::range_eq_ignore_case(cmd, 0, 4, &['A', 'R', 'G', 'B']) {
            if let (Some(i), Some(p)) = (BmsIndex::parse_chars(cmd, 4, n), ArgbParams::from_chars(val, 0, val.len())) {
                return Ok(Some(BmsHeaderResDefVisual::Argb { id: BmpIndex(i), params: p }));
            }
        }
        if crate::text::range_eq_ignore_case(cmd, 0, n, &['V', 'I', 'D', 'E', 'O', 'F', 'I', 'L', 'E']) {
            return Ok(Some(BmsHeaderResDefVisual::VideoFile(crate::text::string_from(val))));
        }
        if crate::text::range_eq_ignore_case(cmd, 0, n, &['M', 'O', 'V', 'I', 'E']) {
            return Ok(Some(BmsHeaderResDefVisual::Movie(crate::text::string_from(val))));
        }
        if n > 4 && n <= 6 && crate::text::range_eq_ignore_case(cmd, 0, 4, &['S', 'E', 'E', 'K']) {
            let i = match BmsIndex::parse_chars(cmd, 4, n) {
                Some(i) => i,
                None => {
                    return Err(
                        BmsTokenizeError::InvalidInteger {
                            value: crate::text::string_from_range(cmd, 4, n),
                        },
                    );
                },
            };
            if crate::text::float_literal_ok(val, 0, val.len()) {
                return Ok(Some(BmsHeaderResDefVisual::Seek { id: SeekIndex(i), value: crate::text::string_from(val) }));
            } else {
                return Err(BmsTokenizeError::InvalidFloat { value: crate::text::string_from(val) });
            }
        }
        if crate::text::range_eq_ignore_case(cmd, 0, n, &['E', 'X', 'T', 'C', 'H', 'R']) {
            return Ok(Some(BmsHeaderResDefVisual::ExtChr(crate::text::string_from(val))));
        }
        if crate::text::range_eq_ignore_case(cmd, 0, n, &['V', 'I', 'D', 'E', 'O', 'F', '/', 'S']) {
            if crate::text::float_literal_ok(val, 0, val.len()) {
                return Ok(Some(BmsHeaderResDefVisual::VideoFps(crate::text::string_from(val))));
            } else {
                return Err(BmsTokenizeError::InvalidFloat { value: crate::text::string_from(val) });
            }
        }
        if crate::text::range_eq_ignore_case(cmd, 0, n, &['V', 'I', 'D', 'E', 'O', 'C', 'O', 'L', 'O', 'R', 'S']) {
            if crate::text::float_literal_ok(val, 0, val.len()) {
                return Ok(Some(BmsHeaderResDefVisual::VideoColors(crate::text::string_from(val))));
            } else {
                return Err(BmsTokenizeError::InvalidFloat { value: crate::text::string_from(val) });
            }
        }
        if crate::text::range_eq_ignore_case(cmd, 0, n, &['V', 'I', 'D', 'E', 'O', 'D', 'L', 'Y']) {
            if crate::text::float_literal_ok(val, 0, val.len()) {
                return Ok(Some(BmsHeaderResDefVisual::VideoDly(crate::text::string_from(val))));
            } else {
                return Err(BmsTokenizeError::InvalidFloat { value: crate::text::string_from(val) });
            }
        }
        Ok(None)
    }
}

/// The command and the value of a header of this group as a BMS file writes
/// them: the command with its prefix (`%` for `URL` and `EMAIL`, `#`
/// otherwise), its first spelling and its index, and the value's text.
pub open spec fn res_def_visual_text(h: BmsHeaderResDefVisual<Seq<char>>) -> (Seq<char>, Seq<char>) {
    match h {
        BmsHeaderResDefVisual::Bmp { id, filename } => (seq!['#', 'B', 'M', 'P'] + crate::index::ascii_text(id.0@), filename),
        BmsHeaderResDefVisual::ExBmp { id, params } => (seq!['#', 'E', 'X', 'B', 'M', 'P'] + crate::index::ascii_text(id.0@), crate::params::argb_text(params.a, params.r, params.g, params.b) + seq![' '] + params.filename),
        BmsHeaderResDefVisual::Bga { id, params } => (seq!['#', 'B', 'G', 'A'] + crate::index::ascii_text(id.0@), crate::params::numbers_text(seq![params.bmp_index as int, params.x1 as int, params.y1 as int, params.x2 as int, params.y2 as int, params.dx as int, params.dy as int])),
        BmsHeaderResDefVisual::AtBga { id, params } => (seq!['#', '@', 'B', 'G', 'A'] + crate::index::ascii_text(id.0@), crate::params::numbers_text(seq![params.bmp_index as int, params.sx as int, params.sy as int, params.w as int, params.h as int, params.dx as int, params.dy as int])),
        BmsHeaderResDefVisual::PoorBga(v) => (seq!['#', 'P', 'O', 'O', 'R', 'B', 'G', 'A'], crate::value::poor_bga_mode_code(v)),
        BmsHeaderResDefVisual::SwBga { id, params } => (seq!['#', 'S', 'W', 'B', 'G', 'A'] + crate::index::ascii_text(id.0@), crate::params::sw_bga_text(params)),
        BmsHeaderResDefVisual::Argb { id, params } => (seq!['#', 'A', 'R', 'G', 'B'] + crate::index::ascii_text(id.0@), crate::params::argb_text(params.a, params.r, params.g, params.b)),
        BmsHeaderResDefVisual::VideoFile(v) => (seq!['#', 'V', 'I', 'D', 'E', 'O', 'F', 'I', 'L', 'E'], v),
        BmsHeaderResDefVisual::Movie(v) => (seq!['#', 'M', 'O', 'V', 'I', 'E'], v),
        BmsHeaderResDefVisual::Seek { id, value } => (seq!['#', 'S', 'E', 'E', 'K'] + crate::index::ascii_text(id.0@), crate::text::float_text(value)),
        BmsHeaderResDefVisual::ExtChr(v) => (seq!['#', 'E', 'X', 'T', 'C', 'H', 'R'], v),
        BmsHeaderResDefVisual::VideoFps(v) => (seq!['#', 'V', 'I', 'D', 'E', 'O', 'F', '/', 'S'], crate::text::float_text(v)),
        BmsHeaderResDefVisual::VideoColors(v) => (seq!['#', 'V', 'I', 'D', 'E', 'O', 'C', 'O', 'L', 'O', 'R', 'S'], crate::text::float_text(v)),
        BmsHeaderResDefVisual::VideoDly(v) => (seq!['#', 'V', 'I', 'D', 'E', 'O', 'D', 'L', 'Y'], crate::text::float_text(v)),
    }
}

impl BmsHeaderResDefVisual<String> {
    /// The command and the value of this header (see [`res_def_visual_text`]).
    pub fn format_header(&self) -> (r: (String, String))
        ensures
            (r.0@, r.1@) == res_def_visual_text(self@),
    {
        match self {
            BmsHeaderResDefVisual::Bmp { id, filename } => (crate::header::cmd_with_id(&['#', 'B', 'M', 'P'], &id.0), filename.clone()),
            BmsHeaderResDefVisual::ExBmp { id, params } => (crate::header::cmd_with_id(&['#', 'E', 'X', 'B', 'M', 'P'], &id.0), params.to_string()),
            BmsHeaderResDefVisual::Bga { id, params } => (crate::header::cmd_with_id(&['#', 'B', 'G', 'A'], &id.0), params.to_string()),
            BmsHeaderResDefVisual::AtBga { id, params } => (crate::header::cmd_with_id(&['#', '@', 'B', 'G', 'A'], &id.0), params.to_string()),
            BmsHeaderResDefVisual::PoorBga(v) => (crate::text::string_from(&['#', 'P', 'O', 'O', 'R', 'B', 'G', 'A']), v.to_string()),
            BmsHeaderResDefVisual::SwBga { id, params } => (crate::header::cmd_with_id(&['#', 'S', 'W', 'B', 'G', 'A'], &id.0), params.to_string()),
            BmsHeaderResDefVisual::Argb { id, params } => (crate::header::cmd_with_id(&['#', 'A', 'R', 'G', 'B'], &id.0), params.to_string()),
            BmsHeaderResDefVisual::VideoFile(v) => (crate::text::string_from(&['#', 'V', 'I', 'D', 'E', 'O', 'F', 'I', 'L', 'E']), v.clone()),
            BmsHeaderResDefVisual::Movie(v) => (crate::text::string_from(&['#', 'M', 'O', 'V', 'I', 'E']), v.clone()),
            BmsHeaderResDefVisual::Seek { id, value } => (crate::header::cmd_with_id(&['#', 'S', 'E', 'E', 'K'], &id.0), crate::text::string_from(&crate::text::float_text_exec(&crate::text::chars_of(value.as_str())))),
            BmsHeaderResDefVisual::ExtChr(v) => (crate::text::string_from(&['#', 'E', 'X', 'T', 'C', 'H', 'R']), v.clone()),
            BmsHeaderResDefVisual::VideoFps(v) => (crate::text::string_from(&['#', 'V', 'I', 'D', 'E', 'O', 'F', '/', 'S']), crate::text::string_from(&crate::text::float_text_exec(&crate::text::chars_of(v.as_str())))),
            BmsHeaderResDefVisual::VideoColors(v) => (crate::text::string_from(&['#', 'V', 'I', 'D', 'E', 'O', 'C', 'O', 'L', 'O', 'R', 'S']), crate::text::string_from(&crate::text::float_text_exec(&crate::text::chars_of(v.as_str())))),
            BmsHeaderResDefVisual::VideoDly(v) => (crate::text::string_from(&['#', 'V', 'I', 'D', 'E', 'O', 'D', 'L', 'Y']), crate::text::string_from(&crate::text::float_text_exec(&crate::text::chars_of(v.as_str())))),
        }
    }
}

/// Writing a header of this group and reading back its command (after the
/// prefix) and its value gives the same header,
/// for a header that reading can give: valid indices, file names and
/// patterns without whitespace at either end, and number literals in the
/// form that writing gives them.
#[verifier::rlimit(50)]
pub proof fn lemma_res_def_visual_roundtrip(h: BmsHeaderResDefVisual<Seq<char>>)
    requires
        (h matches BmsHeaderResDefVisual::Bmp { id, .. } ==> crate::index::index_text_ok(crate::index::ascii_text(id.0@))),
        (h matches BmsHeaderResDefVisual::ExBmp { id, .. } ==> crate::index::index_text_ok(crate::index::ascii_text(id.0@))),
        (h matches BmsHeaderResDefVisual::ExBmp { params: v, .. } ==> crate::text::trim(v.filename) == v.filename),
        (h matches BmsHeaderResDefVisual::Bga { id, .. } ==> crate::index::index_text_ok(crate::index::ascii_text(id.0@))),
        (h matches BmsHeaderResDefVisual::AtBga { id, .. } ==> crate::index::index_text_ok(crate::index::ascii_text(id.0@))),
        (h matches BmsHeaderResDefVisual::SwBga { id, .. } ==> crate::index::index_text_ok(crate::index::ascii_text(id.0@))),
        (h matches BmsHeaderResDefVisual::SwBga { params: v, .. } ==> crate::text::trim(v.pattern) == v.pattern),
        (h matches BmsHeaderResDefVisual::Argb { id, .. } ==> crate::index::index_text_ok(crate::index::ascii_text(id.0@))),
        (h matches BmsHeaderResDefVisual::Seek { id, .. } ==> crate::index::index_text_ok(crate::index::ascii_text(id.0@))),
        (h matches BmsHeaderResDefVisual::Seek { value: v, .. } ==> crate::text::canonical_float(v)),
        (h matches BmsHeaderResDefVisual::VideoFps(v) ==> crate::text::canonical_float(v)),
        (h matches BmsHeaderResDefVisual::VideoColors(v) ==> crate::text::canonical_float(v)),
        (h matches BmsHeaderResDefVisual::VideoDly(v) ==> crate::text::canonical_float(v)),
    ensures
        res_def_visual_of(res_def_visual_text(h).0.drop_first(), res_def_visual_text(h).1) == Ok::<Option<BmsHeaderResDefVisual<Seq<char>>>, crate::error::BmsTokenizeError<Seq<char>>>(Some(h)),
{
    match h {
        BmsHeaderResDefVisual::Bmp { id, filename: v } => {
            let c = seq!['B', 'M', 'P'] + crate::index::ascii_text(id.0@);
            assert(c.take(3) =~= seq!['B', 'M', 'P']);
            assert(c.skip(3) =~= crate::index::ascii_text(id.0@));
            crate::index::lemma_index_text_roundtrip(id.0);
            assert(res_def_visual_text(h).0.drop_first() =~= c);
        },
        BmsHeaderResDefVisual::ExBmp { id, params: v } => {
            let c = seq!['E', 'X', 'B', 'M', 'P'] + crate::index::ascii_text(id.0@);
            assert(c.take(5) =~= seq!['E', 'X', 'B', 'M', 'P']);
            assert(c.skip(5) =~= crate::index::ascii_text(id.0@));
            crate::index::lemma_index_text_roundtrip(id.0);
            assert(!crate::header::cmd_has_id(c, seq!['B', 'M', 'P']));
            crate::params::lemma_ex_bmp_roundtrip(v);
            assert(res_def_visual_text(h).0.drop_first() =~= c);
        },
        BmsHeaderResDefVisual::Bga { id, params: v } => {
            let c = seq!['B', 'G', 'A'] + crate::index::ascii_text(id.0@);
            assert(c.take(3) =~= seq!['B', 'G', 'A']);
            assert(c.skip(3) =~= crate::index::ascii_text(id.0@));
            crate::index::lemma_index_text_roundtrip(id.0);
            assert(c.take(3)[1] == c[1]);
            crate::header::lemma_ne_at(c.take(3), seq!['B', 'M', 'P'], 1);
            assert(!crate::header::cmd_has_id(c, seq!['E', 'X', 'B', 'M', 'P']));
            crate::params::lemma_bga_roundtrip(v);
            assert(res_def_visual_text(h).0.drop_first() =~= c);
        },
        BmsHeaderResDefVisual::AtBga { id, params: v } => {
            let c = seq!['@', 'B', 'G', 'A'] + crate::index::ascii_text(id.0@);
            assert(c.take(4) =~= seq!['@', 'B', 'G', 'A']);
            assert(c.skip(4) =~= crate::index::ascii_text(id.0@));
            crate::index::lemma_index_text_roundtrip(id.0);
            assert(c.take(3)[0] == c[0]);
            crate::header::lemma_ne_at(c.take(3), seq!['B', 'M', 'P'], 0);
            assert(c.take(5)[0] == c[0]);
            crate::header::lemma_ne_at(c.take(5), seq!['E', 'X', 'B', 'M', 'P'], 0);
            assert(c.take(3)[0] == c[0]);
            crate::header::lemma_ne_at(c.take(3), seq!['B', 'G', 'A'], 0);
            crate::params::lemma_at_bga_roundtrip(v);
            assert(res_def_visual_text(h).0.drop_first() =~= c);
        },
        BmsHeaderResDefVisual::PoorBga(v) => {
            let c = seq!['P', 'O', 'O', 'R', 'B', 'G', 'A'];
            assert(!crate::header::cmd_has_id(c, seq!['B', 'M', 'P']));
            assert(c.take(5)[0] == c[0]);
            crate::header::lemma_ne_at(c.take(5), seq!['E', 'X', 'B', 'M', 'P'], 0);
            assert(!crate::header::cmd_has_id(c, seq!['B', 'G', 'A']));
            assert(!crate::header::cmd_has_id(c, seq!['@', 'B', 'G', 'A']));
            crate::value::lemma_poor_bga_mode_of_roundtrip(v);
            assert(res_def_visual_text(h).0.drop_first() =~= c);
        },
        BmsHeaderResDefVisual::SwBga { id, params: v } => {
            let c = seq!['S', 'W', 'B', 'G', 'A'] + crate::index::ascii_text(id.0@);
            assert(c.take(5) =~= seq!['S', 'W', 'B', 'G', 'A']);
            assert(c.skip(5) =~= crate::index::ascii_text(id.0@));
            crate::index::lemma_index_text_roundtrip(id.0);
            assert(!crate::header::cmd_has_id(c, seq!['B', 'M', 'P']));
            assert(c.take(5)[0] == c[0]);
            crate::header::lemma_ne_at(c.take(5), seq!['E', 'X', 'B', 'M', 'P'], 0);
            assert(!crate::header::cmd_has_id(c, seq!['B', 'G', 'A']));
            assert(c.take(4)[0] == c[0]);
            crate::header::lemma_ne_at(c.take(4), seq!['@', 'B', 'G', 'A'], 0);
            if c.len() == 7 { crate::header::lemma_ne_at(c, seq!['P', 'O', 'O', 'R', 'B', 'G', 'A'], 0); } else { crate::header::lemma_ne_len(c, seq!['P', 'O', 'O', 'R', 'B', 'G', 'A']); }
            crate::params::lemma_sw_bga_roundtrip(v);
            assert(res_def_visual_text(h).0.drop_first() =~= c);
        },
        BmsHeaderResDefVisual::Argb { id, params: v } => {
            let c = seq!['A', 'R', 'G', 'B'] + crate::index::ascii_text(id.0@);
            assert(c.take(4) =~= seq!['A', 'R', 'G', 'B']);
            assert(c.skip(4) =~= crate::index::ascii_text(id.0@));
            crate::index::lemma_index_text_roundtrip(id.0);
            assert(c.take(3)[0] == c[0]);
            crate::header::lemma_ne_at(c.take(3), seq!['B', 'M', 'P'], 0);
            assert(c.take(5)[0] == c[0]);
            crate::header::lemma_ne_at(c.take(5), seq!['E', 'X', 'B', 'M', 'P'], 0);
            assert(c.take(3)[0] == c[0]);
            crate::header::lemma_ne_at(c.take(3), seq!['B', 'G', 'A'], 0);
            assert(c.take(4)[0] == c[0]);
            crate::header::lemma_ne_at(c.take(4), seq!['@', 'B', 'G', 'A'], 0);
            crate::header::lemma_ne_len(c, seq!['P', 'O', 'O', 'R', 'B', 'G', 'A']);
            assert(c.take(5)[0] == c[0]);
            crate::header::lemma_ne_at(c.take(5), seq!['S', 'W', 'B', 'G', 'A'], 0);
            crate::params::lemma_argb_roundtrip(v.a, v.r, v.g, v.b);
            assert(res_def_visual_text(h).0.drop_first() =~= c);
        },
        BmsHeaderResDefVisual::VideoFile(v) => {
            let c = seq!['V', 'I', 'D', 'E', 'O', 'F', 'I', 'L', 'E'];
            assert(!crate::header::cmd_has_id(c, seq!['B', 'M', 'P']));
            assert(!crate::header::cmd_has_id(c, seq!['E', 'X', 'B', 'M', 'P']));
            assert(!crate::header::cmd_has_id(c, seq!['B', 'G', 'A']));
            assert(!crate::header::cmd_has_id(c, seq!['@', 'B', 'G', 'A']));
            crate::header::lemma_ne_len(c, seq!['P', 'O', 'O', 'R', 'B', 'G', 'A']);
            assert(!crate::header::cmd_has_id(c, seq!['S', 'W', 'B', 'G', 'A']));
            assert(!crate::header::cmd_has_id(c, seq!['A', 'R', 'G', 'B']));
            assert(res_def_visual_text(h).0.drop_first() =~= c);
        },
        BmsHeaderResDefVisual::Movie(v) => {
            let c = seq!['M', 'O', 'V', 'I', 'E'];
            assert(c.take(3)[0] == c[0]);
            crate::header::lemma_ne_at(c.take(3), seq!['B', 'M', 'P'], 0);
            assert(!crate::header::cmd_has_id(c, seq!['E', 'X', 'B', 'M', 'P']));
            assert(c.take(3)[0] == c[0]);
            crate::header::lemma_ne_at(c.take(3), seq!['B', 'G', 'A'], 0);
            assert(c.take(4)[0] == c[0]);
            crate::header::lemma_ne_at(c.take(4), seq!['@', 'B', 'G', 'A'], 0);
            crate::header::lemma_ne_len(c, seq!['P', 'O', 'O', 'R', 'B', 'G', 'A']);
            assert(!crate::header::cmd_has_id(c, seq!['S', 'W', 'B', 'G', 'A']));
            assert(c.take(4)[0] == c[0]);
            crate::header::lemma_ne_at(c.take(4), seq!['A', 'R', 'G', 'B'], 0);
            crate::header::lemma_ne_len(c, seq!['V', 'I', 'D', 'E', 'O', 'F', 'I', 'L', 'E']);
            assert(res_def_visual_text(h).0.drop_first() =~= c);
        },
        BmsHeaderResDefVisual::Seek { id, value: v } => {
            let c = seq!['S', 'E', 'E', 'K'] + crate::index::ascii_text(id.0@);
            assert(c.take(4) =~= seq!['S', 'E', 'E', 'K']);
            assert(c.skip(4) =~= crate::index::ascii_text(id.0@));
            crate::index::lemma_index_text_roundtrip(id.0);
            assert(c.take(3)[0] == c[0]);
            crate::header::lemma_ne_at(c.take(3), seq!['B', 'M', 'P'], 0);
            assert(c.take(5)[0] == c[0]);
            crate::header::lemma_ne_at(c.take(5), seq!['E', 'X', 'B', 'M', 'P'], 0);
            assert(c.take(3)[0] == c[0]);
            crate::header::lemma_ne_at(c.take(3), seq!['B', 'G', 'A'], 0);
            assert(c.take(4)[0] == c[0]);
            crate::header::lemma_ne_at(c.take(4), seq!['@', 'B', 'G', 'A'], 0);
            crate::header::lemma_ne_len(c, seq!['P', 'O', 'O', 'R', 'B', 'G', 'A']);
            assert(c.take(5)[1] == c[1]);
            crate::header::lemma_ne_at(c.take(5), seq!['S', 'W', 'B', 'G', 'A'], 1);
            assert(c.take(4)[0] == c[0]);
            crate::header::lemma_ne_at(c.take(4), seq!['A', 'R', 'G', 'B'], 0);
            crate::header::lemma_ne_len(c, seq!['V', 'I', 'D', 'E', 'O', 'F', 'I', 'L', 'E']);
            if c.len() == 5 { crate::header::lemma_ne_at(c, seq!['M', 'O', 'V', 'I', 'E'], 0); } else { crate::header::lemma_ne_len(c, seq!['M', 'O', 'V', 'I', 'E']); }
            assert(res_def_visual_text(h).0.drop_first() =~= c);
        },
        BmsHeaderResDefVisual::ExtChr(v) => {
            let c = seq!['E', 'X', 'T', 'C', 'H', 'R'];
            assert(!crate::header::cmd_has_id(c, seq!['B', 'M', 'P']));
            assert(c.take(5)[2] == c[2]);
            crate::header::lemma_ne_at(c.take(5), seq!['E', 'X', 'B', 'M', 'P'], 2);
            assert(!crate::header::cmd_has_id(c, seq!['B', 'G', 'A']));
            assert(c.take(4)[0] == c[0]);
            crate::header::lemma_ne_at(c.take(4), seq!['@', 'B', 'G', 'A'], 0);
            crate::header::lemma_ne_len(c, seq!['P', 'O', 'O', 'R', 'B', 'G', 'A']);
            assert(c.take(5)[0] == c[0]);
            crate::header::lemma_ne_at(c.take(5), seq!['S', 'W', 'B', 'G', 'A'], 0);
            assert(c.take(4)[0] == c[0]);
            crate::header::lemma_ne_at(c.take(4), seq!['A', 'R', 'G', 'B'], 0);
            crate::header::lemma_ne_len(c, seq!['V', 'I', 'D', 'E', 'O', 'F', 'I', 'L', 'E']);
            crate::header::lemma_ne_len(c, seq!['M', 'O', 'V', 'I', 'E']);
            assert(c.take(4)[0] == c[0]);
            crate::header::lemma_ne_at(c.take(4), seq!['S', 'E', 'E', 'K'], 0);
            assert(res_def_visual_text(h).0.drop_first() =~= c);
        },
        BmsHeaderResDefVisual::VideoFps(v) => {
            let c = seq!['V', 'I', 'D', 'E', 'O', 'F', '/', 'S'];
            assert(!crate::header::cmd_has_id(c, seq!['B', 'M', 'P']));
            assert(!crate::header::cmd_has_id(c, seq!['E', 'X', 'B', 'M', 'P']));
            assert(!crate::header::cmd_has_id(c, seq!['B', 'G', 'A']));
            assert(!crate::header::cmd_has_id(c, seq!['@', 'B', 'G', 'A']));
            crate::header::lemma_ne_len(c, seq!['P', 'O', 'O', 'R', 'B', 'G', 'A']);
            assert(!crate::header::cmd_has_id(c, seq!['S', 'W', 'B', 'G', 'A']));
            assert(!crate::header::cmd_has_id(c, seq!['A', 'R', 'G', 'B']));
            crate::header::lemma_ne_len(c, seq!['V', 'I', 'D', 'E', 'O', 'F', 'I', 'L', 'E']);
            crate::header::lemma_ne_len(c, seq!['M', 'O', 'V', 'I', 'E']);
            assert(!crate::header::cmd_has_id(c, seq!['S', 'E', 'E', 'K']));
            crate::header::lemma_ne_len(c, seq!['E', 'X', 'T', 'C', 'H', 'R']);
            assert(res_def_visual_text(h).0.drop_first() =~= c);
        },
        BmsHeaderResDefVisual::VideoColors(v) => {
            let c = seq!['V', 'I', 'D', 'E', 'O', 'C', 'O', 'L', 'O', 'R', 'S'];
            assert(!crate::header::cmd_has_id(c, seq!['B', 'M', 'P']));
            assert(!crate::header::cmd_has_id(c, seq!['E', 'X', 'B', 'M', 'P']));
            assert(!crate::header::cmd_has_id(c, seq!['B', 'G', 'A']));
            assert(!crate::header::cmd_has_id(c, seq!['@', 'B', 'G', 'A']));
            crate::header::lemma_ne_len(c, seq!['P', 'O', 'O', 'R', 'B', 'G', 'A']);
            assert(!crate::header::cmd_has_id(c, seq!['S', 'W', 'B', 'G', 'A']));
            assert(!crate::header::cmd_has_id(c, seq!['A', 'R', 'G', 'B']));
            crate::header::lemma_ne_len(c, seq!['V', 'I', 'D', 'E', 'O', 'F', 'I', 'L', 'E']);
            crate::header::lemma_ne_len(c, seq!['M', 'O', 'V', 'I', 'E']);
            assert(!crate::header::cmd_has_id(c, seq!['S', 'E', 'E', 'K']));
            crate::header::lemma_ne_len(c, seq!['E', 'X', 'T', 'C', 'H', 'R']);
            crate::header::lemma_ne_len(c, seq!['V', 'I', 'D', 'E', 'O', 'F', '/', 'S']);
            assert(res_def_visual_text(h).0.drop_first() =~= c);
        },
        BmsHeaderResDefVisual::VideoDly(v) => {
            let c = seq!['V', 'I', 'D', 'E', 'O', 'D', 'L', 'Y'];
            assert(!crate::header::cmd_has_id(c, seq!['B', 'M', 'P']));
            assert(!crate::header::cmd_has_id(c, seq!['E', 'X', 'B', 'M', 'P']));
            assert(!crate::header::cmd_has_id(c, seq!['B', 'G', 'A']));
            assert(!crate::header::cmd_has_id(c, seq!['@', 'B', 'G', 'A']));
            crate::header::lemma_ne_len(c, seq!['P', 'O', 'O', 'R', 'B', 'G', 'A']);
            assert(!crate::header::cmd_has_id(c, seq!['S', 'W', 'B', 'G', 'A']));
            assert(!crate::header::cmd_has_id(c, seq!['A', 'R', 'G', 'B']));
            crate::header::lemma_ne_len(c, seq!['V', 'I', 'D', 'E', 'O', 'F', 'I', 'L', 'E']);
            crate::header::lemma_ne_len(c, seq!['M', 'O', 'V', 'I', 'E']);
            assert(!crate::header::cmd_has_id(c, seq!['S', 'E', 'E', 'K']));
            crate::header::lemma_ne_len(c, seq!['E', 'X', 'T', 'C', 'H', 'R']);
            crate::header::lemma_ne_at(c, seq!['V', 'I', 'D', 'E', 'O', 'F', '/', 'S'], 5);
            crate::header::lemma_ne_len(c, seq!['V', 'I', 'D', 'E', 'O', 'C', 'O', 'L', 'O', 'R', 'S']);
            assert(res_def_visual_text(h).0.drop_first() =~= c);
        },
    }
}

} // verus!
