//! Typed channel ids backed by two ASCII bytes.
//!
//! A tag type parameter keeps ids of different kinds (sounds, images,
//! tempos, …) from being mixed up.  A one-character id keeps `0` in its
//! second byte.

use vstd::prelude::*;

use crate::index::{ascii_text, base62_byte, base62_char, index_text_ok, text_bytes};

verus! {

/// Whether `b` is a BMS id byte: `0`–`9`, `A`–`Z`, `a`–`z`.
fn is_bms_alphanumeric(b: u8) -> (r: bool)
    ensures
        r == base62_byte(b),
{
    (48 <= b && b <= 57) || (65 <= b && b <= 90) || (97 <= b && b <= 122)
}

/// A validated BMS id of one or two characters from `0`–`9`, `A`–`Z`,
/// `a`–`z`, stored as raw ASCII bytes.  `T` is a zero-sized tag.
#[derive(Debug, PartialEq, Eq)]
pub struct BmsChannelId<T> {
    bytes: [u8; 2],
    _phantom: core::marker::PhantomData<T>,
}

impl<T> Clone for BmsChannelId<T> {
    fn clone(&self) -> (r: Self)
        ensures
            r == *self,
    {
        proof {
            use_type_invariant(self);
        }
        BmsChannelId { bytes: self.bytes, _phantom: core::marker::PhantomData }
    }
}

impl<T> Copy for BmsChannelId<T> {

}

impl<T> View for BmsChannelId<T> {
    type V = Seq<u8>;

    /// The bytes in use: one for a one-character id, else two.
    open spec fn view(&self) -> Seq<u8> {
        if self.byte1() == 0 {
            seq![self.byte0()]
        } else {
            seq![self.byte0(), self.byte1()]
        }
    }
}

impl<T> BmsChannelId<T> {
    /// First stored byte.
    pub closed spec fn byte0(self) -> u8 {
        self.bytes[0]
    }

    /// Second stored byte (`0` for a one-character id).
    pub closed spec fn byte1(self) -> u8 {
        self.bytes[1]
    }

    #[verifier::type_invariant]
    closed spec fn inv(self) -> bool {
        base62_byte(self.bytes[0]) && (self.bytes[1] == 0 || base62_byte(self.bytes[1]))
    }

    /// The id's text.
    pub fn as_str(&self) -> (r: String)
        ensures
            r@ == ascii_text(self@),
    {
        proof {
            use_type_invariant(self);
        }
        let mut cs: Vec<char> = Vec::new();
        cs.push(self.bytes[0] as char);
        if self.bytes[1] != 0 {
            cs.push(self.bytes[1] as char);
        }
        let r = crate::text::string_from(&cs);
        assert(r@ =~= ascii_text(self@));
        r
    }

    /// The raw ASCII bytes (one or two).
    pub fn as_bytes(&self) -> (r: &[u8])
        ensures
            r@ == self@,
            1 <= r@.len() <= 2,
    {
        let len: usize = if self.bytes[1] == 0 {
            1
        } else {
            2
        };
        let all = self.bytes.as_slice();
        let r = vstd::slice::slice_subrange(all, 0, len);
        assert(r@ =~= self@);
        r
    }

    /// The id's text (same as [`BmsChannelId::as_str`]).
    pub fn to_string(&self) -> (r: String)
        ensures
            r@ == ascii_text(self@),
    {
        self.as_str()
    }

    /// Parses a one- or two-character id.
    pub fn try_from(s: &str) -> (r: Result<Self, BmsChannelIdError>)
        ensures
            r is Ok <==> index_text_ok(s@),
            r matches Ok(id) ==> id@ == text_bytes(s@) && ascii_text(id@) == s@,
            r matches Err(e) ==> e.input@ == s@,
    {
        let cs = crate::text::chars_of(s);
        let n = cs.len();
        if n == 1 && crate::index::is_base62_char(cs[0]) {
            let b0 = crate::index::char_byte(cs[0]);
            let r = BmsChannelId { bytes: [b0, 0], _phantom: core::marker::PhantomData };
            assert(r@ =~= text_bytes(s@));
            assert(ascii_text(r@) =~= s@);
            Ok(r)
        } else if n == 2 && crate::index::is_base62_char(cs[0]) && crate::index::is_base62_char(
            cs[1],
        ) {
            let b0 = crate::index::char_byte(cs[0]);
            let b1 = crate::index::char_byte(cs[1]);
            let r = BmsChannelId { bytes: [b0, b1], _phantom: core::marker::PhantomData };
            assert(r@ =~= text_bytes(s@));
            assert(ascii_text(r@) =~= s@);
            Ok(r)
        } else {
            Err(BmsChannelIdError { input: s.to_owned() })
        }
    }
}

impl<T> core::str::FromStr for BmsChannelId<T> {
    type Err = BmsChannelIdError;

    fn from_str(s: &str) -> (r: Result<Self, Self::Err>)
        ensures
            r is Ok <==> index_text_ok(s@),
            r matches Ok(id) ==> id@ == text_bytes(s@) && ascii_text(id@) == s@,
            r matches Err(e) ==> e.input@ == s@,
    {
        BmsChannelId::try_from(s)
    }
}

/// Returned when an id text is not one or two characters from `0`–`9`,
/// `A`–`Z`, `a`–`z`.
#[derive(Debug, Clone, PartialEq, Eq)]
pub struct BmsChannelIdError {
    /// The text that failed.
    pub input: String,
}

/// The text that `str`'s `Debug` formatting writes for `s`: `s` quoted,
/// with quotes, backslashes and control characters escaped.
pub uninterp spec fn debug_text(s: Seq<char>) -> Seq<char>;

/// `format!("{:?}", s)`: the standard library's `Debug` text of a string.
#[verifier::external_body]
fn debug_string(s: &str) -> (r: String)
    ensures
        r@ == debug_text(s@),
{
    format!("{:?}", s)
}

impl BmsChannelIdError {
    /// The message of this error: `invalid channel id: ` and the input in
    /// `Debug` form.
    pub fn to_string(&self) -> (r: String)
        ensures
            r@ == seq!['i', 'n', 'v', 'a', 'l', 'i', 'd', ' ', 'c', 'h', 'a', 'n', 'n', 'e', 'l', ' ', 'i', 'd', ':', ' ']
                + debug_text(self.input@),
    {
        let d = debug_string(self.input.as_str());
        let mut v: Vec<char> = Vec::new();
        crate::text::extend_chars(
            &mut v,
            &['i', 'n', 'v', 'a', 'l', 'i', 'd', ' ', 'c', 'h', 'a', 'n', 'n', 'e', 'l', ' ', 'i', 'd', ':', ' '],
        );
        let dc = crate::text::chars_of(d.as_str());
        crate::text::extend_chars(&mut v, &dc);
        crate::text::string_from(&v)
    }
}

// The tags are zero-sized markers; they are never looked at, only named
// as type arguments.

/// Tag of sound ids (`#WAVxx`, `#EXWAVxx`).
#[derive(Debug, Clone, Copy, PartialEq, Eq)]
pub struct WavTag;

/// Tag of image ids (`#BMPxx`, `#EXBMPxx`, `#BGAxx`, …).
#[derive(Debug, Clone, Copy, PartialEq, Eq)]
pub struct BmpTag;

/// Tag of tempo ids (`#BPMxx`).
#[derive(Debug, Clone, Copy, PartialEq, Eq)]
pub struct BpmTag;

/// Tag of stop ids (`#STOPxx`).
#[derive(Debug, Clone, Copy, PartialEq, Eq)]
pub struct StopTag;

/// Tag of scroll ids (`#SCROLLxx`).
#[derive(Debug, Clone, Copy, PartialEq, Eq)]
pub struct ScrollTag;

/// Tag of spacing ids (`#SPEEDxx`).
#[derive(Debug, Clone, Copy, PartialEq, Eq)]
pub struct SpeedTag;

/// Tag of judge ids (`#EXRANKxx`).
#[derive(Debug, Clone, Copy, PartialEq, Eq)]
pub struct ExRankTag;

/// Tag of video seek ids (`#SEEKxx`).
#[derive(Debug, Clone, Copy, PartialEq, Eq)]
pub struct SeekTag;

/// Tag of the `#LNOBJ` sound id.
#[derive(Debug, Clone, Copy, PartialEq, Eq)]
pub struct LnObjTag;

} // verus!
