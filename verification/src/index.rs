//! Type-safe BMS index wrappers.
//!
//! BMS refers to resources (WAV, BMP), timing definitions (BPM, STOP,
//! SCROLL, SPEED), channel numbers and other indexed commands through 1–2
//! character indices.  [`BmsIndex`] is the raw storage, validated against the
//! Base62 alphabet (`0-9A-Za-z`); each semantic index is a newtype around it.
//! [`ChannelIndex`] is validated against Base36 (`0-9A-Z`).
//!
//! An index is stored as two ASCII bytes; a one-character index keeps `0` in
//! the second byte.

use vstd::prelude::*;
use vstd::std_specs::cmp::PartialEqSpecImpl;
use vstd::string::StringSliceAdditionalSpecFns;

verus! {

// ---------------------------------------------------------------------------
// Character sets
// ---------------------------------------------------------------------------

/// Base-62 byte: `0`–`9`, `A`–`Z`, `a`–`z`.
pub open spec fn base62_byte(b: u8) -> bool {
    (48 <= b && b <= 57) || (65 <= b && b <= 90) || (97 <= b && b <= 122)
}

/// Base-36 byte (upper case only): `0`–`9`, `A`–`Z`.
pub open spec fn base36_byte(b: u8) -> bool {
    (48 <= b && b <= 57) || (65 <= b && b <= 90)
}

/// Hexadecimal byte: `0`–`9`, `A`–`F`, `a`–`f`.
pub open spec fn hex_byte(b: u8) -> bool {
    (48 <= b && b <= 57) || (65 <= b && b <= 70) || (97 <= b && b <= 102)
}

/// Base-62 byte test: `0`–`9`, `A`–`Z`, `a`–`z`.
pub fn is_base62(b: u8) -> (r: bool)
    ensures
        r == base62_byte(b),
{
    (48u8 <= b && b <= 57u8) || (65u8 <= b && b <= 90u8) || (97u8 <= b && b <= 122u8)
}

/// Value of a hexadecimal digit byte.
pub open spec fn hex_value(b: u8) -> Option<u8> {
    if 48 <= b && b <= 57 {
        Some((b - 48) as u8)
    } else if 65 <= b && b <= 70 {
        Some((b - 65 + 10) as u8)
    } else if 97 <= b && b <= 102 {
        Some((b - 97 + 10) as u8)
    } else {
        None
    }
}

/// Value of a Base-36 digit byte; lower-case letters count as upper-case.
pub open spec fn base36_value(b: u8) -> Option<u16> {
    if 48 <= b && b <= 57 {
        Some((b - 48) as u16)
    } else if 65 <= b && b <= 90 {
        Some((b - 65 + 10) as u16)
    } else if 97 <= b && b <= 122 {
        Some((b - 97 + 10) as u16)
    } else {
        None
    }
}

/// Decodes one hexadecimal ASCII digit (0–15).
fn hex_digit_value(b: u8) -> (r: Option<u8>)
    ensures
        r == hex_value(b),
{
    if 48u8 <= b && b <= 57u8 {
        Some(b - 48u8)
    } else if 65u8 <= b && b <= 70u8 {
        Some(b - 65u8 + 10)
    } else if 97u8 <= b && b <= 102u8 {
        Some(b - 97u8 + 10)
    } else {
        None
    }
}

/// Decodes one Base-36 ASCII digit (0–35); `a`–`z` read as `A`–`Z`.
pub fn base36_digit_value(b: u8) -> (r: Option<u16>)
    ensures
        r == base36_value(b),
{
    if 48u8 <= b && b <= 57u8 {
        Some((b - 48u8) as u16)
    } else if 65u8 <= b && b <= 90u8 {
        Some((b - 65u8) as u16 + 10)
    } else if 97u8 <= b && b <= 122u8 {
        Some((b - 97u8) as u16 + 10)
    } else {
        None
    }
}

/// The value of a one- or two-digit hexadecimal text.
pub open spec fn hex_text(b: Seq<u8>) -> Option<u8> {
    if b.len() == 1 {
        hex_value(b[0])
    } else if b.len() == 2 {
        match (hex_value(b[0]), hex_value(b[1])) {
            (Some(hi), Some(lo)) => Some((hi * 16 + lo) as u8),
            _ => None,
        }
    } else {
        None
    }
}

/// ASCII upper-casing of a byte (`u8::to_ascii_uppercase`).
pub open spec fn upper_byte(b: u8) -> u8 {
    if 97 <= b && b <= 122 {
        (b - 32) as u8
    } else {
        b
    }
}

// ---------------------------------------------------------------------------
// BmsBase
// ---------------------------------------------------------------------------

/// Character set used to validate BMS indices.  [`Default`] is `Base36`.
#[derive(Debug, Clone, Copy, PartialEq, Eq, Structural)]
#[non_exhaustive]
pub enum BmsBase {
    /// Hexadecimal (`0`–`9`, `A`–`F`, `a`–`f`).
    Base16,
    /// Upper-case Base-36 (`0`–`9`, `A`–`Z`); the standard BMS alphabet.
    Base36,
    /// Base-62 (`0`–`9`, `A`–`Z`, `a`–`z`).
    Base62,
}

impl Default for BmsBase {
    fn default() -> (r: Self)
        ensures
            r == BmsBase::Base36,
    {
        BmsBase::Base36
    }
}

impl BmsBase {
    /// Whether `b` belongs to this character set.
    pub open spec fn valid_byte(self, b: u8) -> bool {
        match self {
            BmsBase::Base16 => hex_byte(b),
            BmsBase::Base36 => base36_byte(b),
            BmsBase::Base62 => base62_byte(b),
        }
    }

    /// Checks whether byte `b` is valid in this character set.
    pub fn is_valid_char(self, b: u8) -> (r: bool)
        ensures
            r == self.valid_byte(b),
    {
        match self {
            BmsBase::Base16 => (48u8 <= b && b <= 57u8) || (65u8 <= b && b <= 70u8) || (97u8 <= b
                && b <= 102u8),
            BmsBase::Base36 => (48u8 <= b && b <= 57u8) || (65u8 <= b && b <= 90u8),
            BmsBase::Base62 => (48u8 <= b && b <= 57u8) || (65u8 <= b && b <= 90u8) || (97u8
                <= b && b <= 122u8),
        }
    }

    /// Decodes a two-character text as a Base-36 number (`hi * 36 + lo`).
    ///
    /// The text must be exactly two bytes long and each byte a Base-36 digit
    /// (lower-case letters read as upper-case).
    pub fn decode(self, s: &str) -> (r: Option<u16>)
        ensures
            r == (if s.spec_bytes().len() == 2 {
                match (base36_value(s.spec_bytes()[0]), base36_value(s.spec_bytes()[1])) {
                    (Some(hi), Some(lo)) => Some((hi * 36 + lo) as u16),
                    _ => None,
                }
            } else {
                None
            }),
    {
        let b = s.as_bytes();
        if b.len() != 2 {
            return None;
        }
        let hi = match base36_digit_value(b[0]) {
            Some(v) => v,
            None => return None,
        };
        let lo = match base36_digit_value(b[1]) {
            Some(v) => v,
            None => return None,
        };
        Some(hi * 36 + lo)
    }
}

// ---------------------------------------------------------------------------
// BmsIndex
// ---------------------------------------------------------------------------

/// A validated 1–2 character BMS index, stored as raw ASCII bytes.
///
/// Comparison is case-sensitive: the parser normalizes indices to upper case
/// in Base36 mode, and Base62 mode keeps `"aa"` and `"AA"` apart.
#[derive(Clone, Copy, Debug, PartialOrd, Ord, Hash)]
pub struct BmsIndex {
    bytes: [u8; 2],
}

impl PartialEq for BmsIndex {
    fn eq(&self, other: &Self) -> (r: bool) {
        self.bytes[0] == other.bytes[0] && self.bytes[1] == other.bytes[1]
    }
}

impl PartialEqSpecImpl for BmsIndex {
    open spec fn obeys_eq_spec() -> bool {
        true
    }

    open spec fn eq_spec(&self, other: &Self) -> bool {
        self.byte0() == other.byte0() && self.byte1() == other.byte1()
    }
}

impl Eq for BmsIndex {

}

impl View for BmsIndex {
    type V = Seq<u8>;

    /// The bytes in use: one byte for a one-character index, else two.
    open spec fn view(&self) -> Seq<u8> {
        if self.byte1() == 0 {
            seq![self.byte0()]
        } else {
            seq![self.byte0(), self.byte1()]
        }
    }
}

impl BmsIndex {
    /// First stored byte.
    pub closed spec fn byte0(self) -> u8 {
        self.bytes[0]
    }

    /// Second stored byte (`0` for a one-character index).
    pub closed spec fn byte1(self) -> u8 {
        self.bytes[1]
    }

    /// Every stored character is Base62, and the second byte is `0` or a
    /// character.
    #[verifier::type_invariant]
    pub closed spec fn inv(self) -> bool {
        base62_byte(self.bytes@[0]) && (self.bytes@[1] == 0 || base62_byte(self.bytes@[1]))
    }

    /// Builds an index from bytes already checked; second byte `0` for one
    /// character.
    pub(crate) fn from_valid(b0: u8, b1: u8) -> (r: Self)
        requires
            base62_byte(b0),
            b1 == 0 || base62_byte(b1),
        ensures
            r.byte0() == b0,
            r.byte1() == b1,
    {
        BmsIndex { bytes: [b0, b1] }
    }

    /// The text of this index.
    pub fn as_str(&self) -> (r: String)
        ensures
            r@ == self@.map_values(|b: u8| b as char),
    {
        proof {
            use_type_invariant(self);
        }
        let mut cs: Vec<char> = Vec::new();
        cs.push(self.bytes[0] as char);
        if self.bytes[1] != 0 {
            cs.push(self.bytes[1] as char);
        }
        let r = crate::text::string_from(&cs);
        assert(r@ =~= self@.map_values(|b: u8| b as char));
        r
    }

    /// The raw ASCII bytes (one or two).
    pub fn as_bytes(&self) -> (r: &[u8])
        ensures
            r@ == self@,
            1 <= r@.len() <= 2,
            forall|i: int| 0 <= i < r@.len() ==> base62_byte(#[trigger] r@[i]),
    {
        proof {
            use_type_invariant(self);
        }
        let len: usize = if self.bytes[1] == 0 {
            1
        } else {
            2
        };
        let all = self.bytes.as_slice();
        let r = vstd::slice::slice_subrange(all, 0, len);
        assert(r@ =~= self@);
        r
    }

    /// Reads the characters as a Base-36 number: `"00"` is 0, `"ZZ"` is 1295,
    /// a single character `"A"` is 10.
    pub fn to_index(&self) -> (r: Option<u16>)
        ensures
            r == (match base36_value(self.byte0()) {
                Some(hi) => if self.byte1() == 0 {
                    Some(hi)
                } else {
                    match base36_value(self.byte1()) {
                        Some(lo) => Some((hi * 36 + lo) as u16),
                        None => None,
                    }
                },
                None => None,
            }),
    {
        let hi = match base36_digit_value(self.bytes[0]) {
            Some(v) => v,
            None => return None,
        };
        if self.bytes[1] == 0 {
            Some(hi)
        } else {
            let lo = match base36_digit_value(self.bytes[1]) {
                Some(v) => v,
                None => return None,
            };
            Some(hi * 36 + lo)
        }
    }

    /// Reads the characters as a hexadecimal byte: `"0A"` is 10, a single
    /// character `"A"` is 10.
    pub fn as_u8_hex(&self) -> (r: Option<u8>)
        ensures
            r == hex_text(self@),
    {
        let hi = match hex_digit_value(self.bytes[0]) {
            Some(v) => v,
            None => return None,
        };
        if self.bytes[1] == 0 {
            Some(hi)
        } else {
            let lo = match hex_digit_value(self.bytes[1]) {
                Some(v) => v,
                None => return None,
            };
            assert((hi << 4) | lo == hi * 16 + lo) by (bit_vector)
                requires
                    hi < 16,
                    lo < 16,
            ;
            Some((hi << 4) | lo)
        }
    }

    /// Whether every character of this index is valid for `base`.
    pub fn is_valid_for(&self, base: BmsBase) -> (r: bool)
        ensures
            r == (base.valid_byte(self.byte0()) && (self.byte1() == 0 || base.valid_byte(
                self.byte1(),
            ))),
    {
        base.is_valid_char(self.bytes[0]) && (self.bytes[1] == 0 || base.is_valid_char(
            self.bytes[1],
        ))
    }

    /// A copy normalized for `base`: upper-cased for Base16 and Base36,
    /// unchanged for Base62.
    pub fn normalize(&self, base: BmsBase) -> (r: Self)
        ensures
            base == BmsBase::Base62 ==> r == *self,
            base != BmsBase::Base62 ==> r.byte0() == upper_byte(self.byte0()) && r.byte1()
                == upper_byte(self.byte1()),
    {
        proof {
            use_type_invariant(self);
        }
        match base {
            BmsBase::Base62 => *self,
            _ => {
                let b0 = if 97u8 <= self.bytes[0] && self.bytes[0] <= 122u8 {
                    self.bytes[0] - 32
                } else {
                    self.bytes[0]
                };
                let b1 = if 97u8 <= self.bytes[1] && self.bytes[1] <= 122u8 {
                    self.bytes[1] - 32
                } else {
                    self.bytes[1]
                };
                BmsIndex { bytes: [b0, b1] }
            },
        }
    }

    /// Parses a 1–2 character Base62 index.
    pub fn try_from(s: &str) -> (r: Result<Self, BmsIndexError>)
        ensures
            r is Ok <==> index_text_ok(s@),
            r matches Ok(idx) ==> ascii_text(idx@) == s@,
            r matches Err(e) ==> e.input@ == s@,
    {
        let cs = crate::text::chars_of(s);
        match BmsIndex::parse_chars(&cs, 0, cs.len()) {
            Some(idx) => {
                assert(cs@.subrange(0, cs@.len() as int) =~= s@);
                Ok(idx)
            },
            None => {
                assert(cs@.subrange(0, cs@.len() as int) =~= s@);
                Err(BmsIndexError { input: s.to_owned() })
            },
        }
    }

    /// Reads `cs[from..to]` as a 1–2 character Base62 index.
    pub fn parse_chars(cs: &[char], from: usize, to: usize) -> (r: Option<Self>)
        requires
            from <= to <= cs@.len(),
        ensures
            r is Some <==> index_text_ok(cs@.subrange(from as int, to as int)),
            r matches Some(idx) ==> ascii_text(idx@) == cs@.subrange(from as int, to as int)
                && idx@ == text_bytes(cs@.subrange(from as int, to as int))
                && idx == index_from_text(cs@.subrange(from as int, to as int)),
    {
        let ghost t = cs@.subrange(from as int, to as int);
        if to - from == 1 && is_base62_char(cs[from]) {
            let b0 = char_byte(cs[from]);
            let r = BmsIndex { bytes: [b0, 0] };
            assert(ascii_text(r@) =~= t);
            proof {
                assert(r@ =~= text_bytes(t));
                lemma_index_view_injective(r, index_from_text(t));
            }
            Some(r)
        } else if to - from == 2 && is_base62_char(cs[from]) && is_base62_char(cs[from + 1]) {
            let b0 = char_byte(cs[from]);
            let b1 = char_byte(cs[from + 1]);
            let r = BmsIndex { bytes: [b0, b1] };
            assert(ascii_text(r@) =~= t);
            proof {
                assert(r@ =~= text_bytes(t));
                lemma_index_view_injective(r, index_from_text(t));
            }
            Some(r)
        } else {
            None
        }
    }

    /// The text of this index (same as [`BmsIndex::as_str`]).
    pub fn to_string(&self) -> (r: String)
        ensures
            r@ == ascii_text(self@),
    {
        self.as_str()
    }
}

/// The bytes of an ASCII text.
pub open spec fn text_bytes(s: Seq<char>) -> Seq<u8> {
    s.map_values(|c: char| (c as u32) as u8)
}

/// The index whose text is `s` (meaningful when `index_text_ok(s)`).
pub open spec fn index_from_text(s: Seq<char>) -> BmsIndex {
    choose|i: BmsIndex| i@ == text_bytes(s)
}

/// An index is determined by its bytes.
pub proof fn lemma_index_view_injective(a: BmsIndex, b: BmsIndex)
    requires
        a@ == b@,
    ensures
        a == b,
{
    broadcast use vstd::array::group_array_axioms;

    if a.byte1() == 0 {
        assert(a@.len() == 1);
        assert(b.byte1() == 0);
    } else {
        assert(a@.len() == 2);
        assert(b.byte1() != 0);
        assert(a@[1] == b@[1]);
    }
    assert(a@[0] == b@[0]);
    assert(a@[0] == a.byte0());
    assert(b@[0] == b.byte0());
    assert(a.byte0() == b.byte0());
    assert(a.byte1() == b.byte1());
    assert(a.bytes[0] == b.bytes[0]);
    assert(a.bytes[1] == b.bytes[1]);
    assert(a.bytes =~= b.bytes);
}

/// The characters that a sequence of ASCII bytes stands for.
pub open spec fn ascii_text(b: Seq<u8>) -> Seq<char> {
    b.map_values(|x: u8| x as char)
}

/// Base-62 character: `0`–`9`, `A`–`Z`, `a`–`z`.
pub open spec fn base62_char(c: char) -> bool {
    ('0' <= c && c <= '9') || ('A' <= c && c <= 'Z') || ('a' <= c && c <= 'z')
}

/// Base-36 character (upper case only): `0`–`9`, `A`–`Z`.
pub open spec fn base36_char(c: char) -> bool {
    ('0' <= c && c <= '9') || ('A' <= c && c <= 'Z')
}

pub fn is_base62_char(c: char) -> (r: bool)
    ensures
        r == base62_char(c),
{
    ('0' <= c && c <= '9') || ('A' <= c && c <= 'Z') || ('a' <= c && c <= 'z')
}

pub fn is_base36_char(c: char) -> (r: bool)
    ensures
        r == base36_char(c),
{
    ('0' <= c && c <= '9') || ('A' <= c && c <= 'Z')
}

/// The byte of an ASCII alphanumeric character.
pub fn char_byte(c: char) -> (r: u8)
    requires
        base62_char(c),
    ensures
        r as char == c,
        base62_byte(r),
        base36_char(c) ==> base36_byte(r),
{
    let v: u32 = c as u32;
    v as u8
}

/// Whether `s` is the text of a valid Base62 index: one or two Base62
/// characters.
pub open spec fn index_text_ok(s: Seq<char>) -> bool {
    (s.len() == 1 && base62_char(s[0])) || (s.len() == 2 && base62_char(s[0]) && base62_char(s[1]))
}

impl core::str::FromStr for BmsIndex {
    type Err = BmsIndexError;

    fn from_str(s: &str) -> (r: Result<Self, Self::Err>)
        ensures
            r is Ok <==> index_text_ok(s@),
            r matches Ok(idx) ==> ascii_text(idx@) == s@,
            r matches Err(e) ==> e.input@ == s@,
    {
        BmsIndex::try_from(s)
    }
}

/// Returned when an index text is not a valid 1–2 character sequence of the
/// required character set.
#[derive(Debug, Clone, PartialEq, Eq)]
pub struct BmsIndexError {
    /// The text that failed validation.
    pub input: String,
}

impl BmsIndexError {
    /// The message of this error.
    pub fn to_string(&self) -> (r: String)
        ensures
            r@ == seq!['i', 'n', 'v', 'a', 'l', 'i', 'd', ' ', 'B', 'M', 'S', ' ', 'i', 'n', 'd', 'e', 'x', ':', ' '] + self.input@,
    {
        let mut s = crate::text::string_from(
            &['i', 'n', 'v', 'a', 'l', 'i', 'd', ' ', 'B', 'M', 'S', ' ', 'i', 'n', 'd', 'e', 'x', ':', ' '],
        );
        s.append(self.input.as_str());
        s
    }
}

// ---------------------------------------------------------------------------
// Semantic index newtypes
// ---------------------------------------------------------------------------
/// Index of `#WAV{id}` / `#EXWAV{id}`: a sound definition.
#[derive(Clone, Copy, Debug, PartialEq, Eq, PartialOrd, Ord, Hash)]
pub struct WavIndex(pub BmsIndex);

impl WavIndex {
    /// Parses a 1–2 character Base62 index.
    pub fn try_from(s: &str) -> (r: Result<Self, BmsIndexError>)
        ensures
            r is Ok <==> index_text_ok(s@),
            r matches Ok(w) ==> ascii_text(w.0@) == s@,
            r matches Err(e) ==> e.input@ == s@,
    {
        match BmsIndex::try_from(s) {
            Ok(i) => Ok(WavIndex(i)),
            Err(e) => Err(e),
        }
    }
}

impl core::str::FromStr for WavIndex {
    type Err = BmsIndexError;

    fn from_str(s: &str) -> (r: Result<Self, Self::Err>)
        ensures
            r is Ok <==> index_text_ok(s@),
            r matches Ok(w) ==> ascii_text(w.0@) == s@,
            r matches Err(e) ==> e.input@ == s@,
    {
        WavIndex::try_from(s)
    }
}

impl core::ops::Deref for WavIndex {
    type Target = BmsIndex;

    fn deref(&self) -> (r: &BmsIndex)
        ensures
            *r == self.0,
    {
        &self.0
    }
}

/// Index of `#BMP{id}` / `#BGA{id}` / `#@BGA{id}` / `#SWBGA{id}` / `#ARGB{id}` / `#EXBMP{id}`: an image or BGA definition.
#[derive(Clone, Copy, Debug, PartialEq, Eq, PartialOrd, Ord, Hash)]
pub struct BmpIndex(pub BmsIndex);

impl BmpIndex {
    /// Parses a 1–2 character Base62 index.
    pub fn try_from(s: &str) -> (r: Result<Self, BmsIndexError>)
        ensures
            r is Ok <==> index_text_ok(s@),
            r matches Ok(w) ==> ascii_text(w.0@) == s@,
            r matches Err(e) ==> e.input@ == s@,
    {
        match BmsIndex::try_from(s) {
            Ok(i) => Ok(BmpIndex(i)),
            Err(e) => Err(e),
        }
    }
}

impl core::str::FromStr for BmpIndex {
    type Err = BmsIndexError;

    fn from_str(s: &str) -> (r: Result<Self, Self::Err>)
        ensures
            r is Ok <==> index_text_ok(s@),
            r matches Ok(w) ==> ascii_text(w.0@) == s@,
            r matches Err(e) ==> e.input@ == s@,
    {
        BmpIndex::try_from(s)
    }
}

impl core::ops::Deref for BmpIndex {
    type Target = BmsIndex;

    fn deref(&self) -> (r: &BmsIndex)
        ensures
            *r == self.0,
    {
        &self.0
    }
}

/// Index of `#BPM{id}` / `#EXBPM{id}`: an extended tempo definition.
#[derive(Clone, Copy, Debug, PartialEq, Eq, PartialOrd, Ord, Hash)]
pub struct BpmIndex(pub BmsIndex);

impl BpmIndex {
    /// Parses a 1–2 character Base62 index.
    pub fn try_from(s: &str) -> (r: Result<Self, BmsIndexError>)
        ensures
            r is Ok <==> index_text_ok(s@),
            r matches Ok(w) ==> ascii_text(w.0@) == s@,
            r matches Err(e) ==> e.input@ == s@,
    {
        match BmsIndex::try_from(s) {
            Ok(i) => Ok(BpmIndex(i)),
            Err(e) => Err(e),
        }
    }
}

impl core::str::FromStr for BpmIndex {
    type Err = BmsIndexError;

    fn from_str(s: &str) -> (r: Result<Self, Self::Err>)
        ensures
            r is Ok <==> index_text_ok(s@),
            r matches Ok(w) ==> ascii_text(w.0@) == s@,
            r matches Err(e) ==> e.input@ == s@,
    {
        BpmIndex::try_from(s)
    }
}

impl core::ops::Deref for BpmIndex {
    type Target = BmsIndex;

    fn deref(&self) -> (r: &BmsIndex)
        ensures
            *r == self.0,
    {
        &self.0
    }
}

/// Index of `#STOP{id}`: a stop definition.
#[derive(Clone, Copy, Debug, PartialEq, Eq, PartialOrd, Ord, Hash)]
pub struct StopIndex(pub BmsIndex);

impl StopIndex {
    /// Parses a 1–2 character Base62 index.
    pub fn try_from(s: &str) -> (r: Result<Self, BmsIndexError>)
        ensures
            r is Ok <==> index_text_ok(s@),
            r matches Ok(w) ==> ascii_text(w.0@) == s@,
            r matches Err(e) ==> e.input@ == s@,
    {
        match BmsIndex::try_from(s) {
            Ok(i) => Ok(StopIndex(i)),
            Err(e) => Err(e),
        }
    }
}

impl core::str::FromStr for StopIndex {
    type Err = BmsIndexError;

    fn from_str(s: &str) -> (r: Result<Self, Self::Err>)
        ensures
            r is Ok <==> index_text_ok(s@),
            r matches Ok(w) ==> ascii_text(w.0@) == s@,
            r matches Err(e) ==> e.input@ == s@,
    {
        StopIndex::try_from(s)
    }
}

impl core::ops::Deref for StopIndex {
    type Target = BmsIndex;

    fn deref(&self) -> (r: &BmsIndex)
        ensures
            *r == self.0,
    {
        &self.0
    }
}

/// Index of `#SCROLL{id}`: a scroll-speed definition.
#[derive(Clone, Copy, Debug, PartialEq, Eq, PartialOrd, Ord, Hash)]
pub struct ScrollIndex(pub BmsIndex);

impl ScrollIndex {
    /// Parses a 1–2 character Base62 index.
    pub fn try_from(s: &str) -> (r: Result<Self, BmsIndexError>)
        ensures
            r is Ok <==> index_text_ok(s@),
            r matches Ok(w) ==> ascii_text(w.0@) == s@,
            r matches Err(e) ==> e.input@ == s@,
    {
        match BmsIndex::try_from(s) {
            Ok(i) => Ok(ScrollIndex(i)),
            Err(e) => Err(e),
        }
    }
}

impl core::str::FromStr for ScrollIndex {
    type Err = BmsIndexError;

    fn from_str(s: &str) -> (r: Result<Self, Self::Err>)
        ensures
            r is Ok <==> index_text_ok(s@),
            r matches Ok(w) ==> ascii_text(w.0@) == s@,
            r matches Err(e) ==> e.input@ == s@,
    {
        ScrollIndex::try_from(s)
    }
}

impl core::ops::Deref for ScrollIndex {
    type Target = BmsIndex;

    fn deref(&self) -> (r: &BmsIndex)
        ensures
            *r == self.0,
    {
        &self.0
    }
}

/// Index of `#SPEED{id}`: a spacing definition.
#[derive(Clone, Copy, Debug, PartialEq, Eq, PartialOrd, Ord, Hash)]
pub struct SpeedIndex(pub BmsIndex);

impl SpeedIndex {
    /// Parses a 1–2 character Base62 index.
    pub fn try_from(s: &str) -> (r: Result<Self, BmsIndexError>)
        ensures
            r is Ok <==> index_text_ok(s@),
            r matches Ok(w) ==> ascii_text(w.0@) == s@,
            r matches Err(e) ==> e.input@ == s@,
    {
        match BmsIndex::try_from(s) {
            Ok(i) => Ok(SpeedIndex(i)),
            Err(e) => Err(e),
        }
    }
}

impl core::str::FromStr for SpeedIndex {
    type Err = BmsIndexError;

    fn from_str(s: &str) -> (r: Result<Self, Self::Err>)
        ensures
            r is Ok <==> index_text_ok(s@),
            r matches Ok(w) ==> ascii_text(w.0@) == s@,
            r matches Err(e) ==> e.input@ == s@,
    {
        SpeedIndex::try_from(s)
    }
}

impl core::ops::Deref for SpeedIndex {
    type Target = BmsIndex;

    fn deref(&self) -> (r: &BmsIndex)
        ensures
            *r == self.0,
    {
        &self.0
    }
}

/// Index of `#EXRANK{id}`: a per-position judge override.
#[derive(Clone, Copy, Debug, PartialEq, Eq, PartialOrd, Ord, Hash)]
pub struct ExRankIndex(pub BmsIndex);

impl ExRankIndex {
    /// Parses a 1–2 character Base62 index.
    pub fn try_from(s: &str) -> (r: Result<Self, BmsIndexError>)
        ensures
            r is Ok <==> index_text_ok(s@),
            r matches Ok(w) ==> ascii_text(w.0@) == s@,
            r matches Err(e) ==> e.input@ == s@,
    {
        match BmsIndex::try_from(s) {
            Ok(i) => Ok(ExRankIndex(i)),
            Err(e) => Err(e),
        }
    }
}

impl core::str::FromStr for ExRankIndex {
    type Err = BmsIndexError;

    fn from_str(s: &str) -> (r: Result<Self, Self::Err>)
        ensures
            r is Ok <==> index_text_ok(s@),
            r matches Ok(w) ==> ascii_text(w.0@) == s@,
            r matches Err(e) ==> e.input@ == s@,
    {
        ExRankIndex::try_from(s)
    }
}

impl core::ops::Deref for ExRankIndex {
    type Target = BmsIndex;

    fn deref(&self) -> (r: &BmsIndex)
        ensures
            *r == self.0,
    {
        &self.0
    }
}

/// Index of `#SEEK{id}`: a video seek position.
#[derive(Clone, Copy, Debug, PartialEq, Eq, PartialOrd, Ord, Hash)]
pub struct SeekIndex(pub BmsIndex);

impl SeekIndex {
    /// Parses a 1–2 character Base62 index.
    pub fn try_from(s: &str) -> (r: Result<Self, BmsIndexError>)
        ensures
            r is Ok <==> index_text_ok(s@),
            r matches Ok(w) ==> ascii_text(w.0@) == s@,
            r matches Err(e) ==> e.input@ == s@,
    {
        match BmsIndex::try_from(s) {
            Ok(i) => Ok(SeekIndex(i)),
            Err(e) => Err(e),
        }
    }
}

impl core::str::FromStr for SeekIndex {
    type Err = BmsIndexError;

    fn from_str(s: &str) -> (r: Result<Self, Self::Err>)
        ensures
            r is Ok <==> index_text_ok(s@),
            r matches Ok(w) ==> ascii_text(w.0@) == s@,
            r matches Err(e) ==> e.input@ == s@,
    {
        SeekIndex::try_from(s)
    }
}

impl core::ops::Deref for SeekIndex {
    type Target = BmsIndex;

    fn deref(&self) -> (r: &BmsIndex)
        ensures
            *r == self.0,
    {
        &self.0
    }
}

/// Index of `#LNOBJ`: the sound index that ends a long note.
#[derive(Clone, Copy, Debug, PartialEq, Eq, PartialOrd, Ord, Hash)]
pub struct LnObjIndex(pub BmsIndex);

impl LnObjIndex {
    /// Parses a 1–2 character Base62 index.
    pub fn try_from(s: &str) -> (r: Result<Self, BmsIndexError>)
        ensures
            r is Ok <==> index_text_ok(s@),
            r matches Ok(w) ==> ascii_text(w.0@) == s@,
            r matches Err(e) ==> e.input@ == s@,
    {
        match BmsIndex::try_from(s) {
            Ok(i) => Ok(LnObjIndex(i)),
            Err(e) => Err(e),
        }
    }
}

impl core::str::FromStr for LnObjIndex {
    type Err = BmsIndexError;

    fn from_str(s: &str) -> (r: Result<Self, Self::Err>)
        ensures
            r is Ok <==> index_text_ok(s@),
            r matches Ok(w) ==> ascii_text(w.0@) == s@,
            r matches Err(e) ==> e.input@ == s@,
    {
        LnObjIndex::try_from(s)
    }
}

impl core::ops::Deref for LnObjIndex {
    type Target = BmsIndex;

    fn deref(&self) -> (r: &BmsIndex)
        ensures
            *r == self.0,
    {
        &self.0
    }
}

/// Index of `#TEXT{id}` / `#SONG{id}`: timed on-screen text.
#[derive(Clone, Copy, Debug, PartialEq, Eq, PartialOrd, Ord, Hash)]
pub struct TextIndex(pub BmsIndex);

impl TextIndex {
    /// Parses a 1–2 character Base62 index.
    pub fn try_from(s: &str) -> (r: Result<Self, BmsIndexError>)
        ensures
            r is Ok <==> index_text_ok(s@),
            r matches Ok(w) ==> ascii_text(w.0@) == s@,
            r matches Err(e) ==> e.input@ == s@,
    {
        match BmsIndex::try_from(s) {
            Ok(i) => Ok(TextIndex(i)),
            Err(e) => Err(e),
        }
    }
}

impl core::str::FromStr for TextIndex {
    type Err = BmsIndexError;

    fn from_str(s: &str) -> (r: Result<Self, Self::Err>)
        ensures
            r is Ok <==> index_text_ok(s@),
            r matches Ok(w) ==> ascii_text(w.0@) == s@,
            r matches Err(e) ==> e.input@ == s@,
    {
        TextIndex::try_from(s)
    }
}

impl core::ops::Deref for TextIndex {
    type Target = BmsIndex;

    fn deref(&self) -> (r: &BmsIndex)
        ensures
            *r == self.0,
    {
        &self.0
    }
}

/// Index of `#CHANGEOPTION{id}`: a dynamic option change.
#[derive(Clone, Copy, Debug, PartialEq, Eq, PartialOrd, Ord, Hash)]
pub struct ChangeOptionIndex(pub BmsIndex);

impl ChangeOptionIndex {
    /// Parses a 1–2 character Base62 index.
    pub fn try_from(s: &str) -> (r: Result<Self, BmsIndexError>)
        ensures
            r is Ok <==> index_text_ok(s@),
            r matches Ok(w) ==> ascii_text(w.0@) == s@,
            r matches Err(e) ==> e.input@ == s@,
    {
        match BmsIndex::try_from(s) {
            Ok(i) => Ok(ChangeOptionIndex(i)),
            Err(e) => Err(e),
        }
    }
}

impl core::str::FromStr for ChangeOptionIndex {
    type Err = BmsIndexError;

    fn from_str(s: &str) -> (r: Result<Self, Self::Err>)
        ensures
            r is Ok <==> index_text_ok(s@),
            r matches Ok(w) ==> ascii_text(w.0@) == s@,
            r matches Err(e) ==> e.input@ == s@,
    {
        ChangeOptionIndex::try_from(s)
    }
}

impl core::ops::Deref for ChangeOptionIndex {
    type Target = BmsIndex;

    fn deref(&self) -> (r: &BmsIndex)
        ensures
            *r == self.0,
    {
        &self.0
    }
}

/// A two-character object id inside a message body.
#[derive(Clone, Copy, Debug, PartialEq, Eq, PartialOrd, Ord, Hash)]
pub struct ObjectIndex(pub BmsIndex);

impl ObjectIndex {
    /// Parses a 1–2 character Base62 index.
    pub fn try_from(s: &str) -> (r: Result<Self, BmsIndexError>)
        ensures
            r is Ok <==> index_text_ok(s@),
            r matches Ok(w) ==> ascii_text(w.0@) == s@,
            r matches Err(e) ==> e.input@ == s@,
    {
        match BmsIndex::try_from(s) {
            Ok(i) => Ok(ObjectIndex(i)),
            Err(e) => Err(e),
        }
    }
}

impl core::str::FromStr for ObjectIndex {
    type Err = BmsIndexError;

    fn from_str(s: &str) -> (r: Result<Self, Self::Err>)
        ensures
            r is Ok <==> index_text_ok(s@),
            r matches Ok(w) ==> ascii_text(w.0@) == s@,
            r matches Err(e) ==> e.input@ == s@,
    {
        ObjectIndex::try_from(s)
    }
}

impl core::ops::Deref for ObjectIndex {
    type Target = BmsIndex;

    fn deref(&self) -> (r: &BmsIndex)
        ensures
            *r == self.0,
    {
        &self.0
    }
}

// ---------------------------------------------------------------------------
// ChannelIndex
// ---------------------------------------------------------------------------

/// Channel number of a message line (`#xxxYY:values`), validated as Base36
/// (`0-9A-Z`).
#[derive(Clone, Copy, Debug, PartialOrd, Ord, Hash)]
pub struct ChannelIndex(BmsIndex);

impl PartialEq for ChannelIndex {
    fn eq(&self, other: &Self) -> (r: bool) {
        self.0.eq(&other.0)
    }
}

impl PartialEqSpecImpl for ChannelIndex {
    open spec fn obeys_eq_spec() -> bool {
        true
    }

    open spec fn eq_spec(&self, other: &Self) -> bool {
        self.idx().byte0() == other.idx().byte0() && self.idx().byte1() == other.idx().byte1()
    }
}

impl Eq for ChannelIndex {

}

impl View for ChannelIndex {
    type V = Seq<u8>;

    open spec fn view(&self) -> Seq<u8> {
        self.idx()@
    }
}

/// Whether the bytes `b0`, `b1` (second `0` for one character) form a
/// Base36 channel number.
pub open spec fn channel_bytes_ok(b0: u8, b1: u8) -> bool {
    base36_byte(b0) && (b1 == 0 || base36_byte(b1))
}

impl ChannelIndex {
    /// The underlying index.
    pub closed spec fn idx(self) -> BmsIndex {
        self.0
    }

    #[verifier::type_invariant]
    closed spec fn inv(self) -> bool {
        channel_bytes_ok(self.0.byte0(), self.0.byte1())
    }

    /// Two channel numbers with the same characters are the same value.
    pub proof fn lemma_view_injective(a: ChannelIndex, b: ChannelIndex)
        requires
            a@ == b@,
        ensures
            a == b,
    {
        broadcast use vstd::array::group_array_axioms;

        assert(a@ == a.0@);
        assert(b@ == b.0@);
        if a.0.byte1() == 0 {
            assert(a@.len() == 1);
            assert(b.0.byte1() == 0);
        } else {
            assert(a@.len() == 2);
            assert(b.0.byte1() != 0);
            assert(a@[1] == b@[1]);
        }
        assert(a@[0] == b@[0]);
        assert(a.0@[0] == a.0.byte0());
        assert(b.0@[0] == b.0.byte0());
        assert(a.0.byte0() == b.0.byte0());
        assert(a.0.byte1() == b.0.byte1());
        assert(a.0.bytes[0] == b.0.bytes[0]);
        assert(a.0.bytes[1] == b.0.bytes[1]);
        assert(a.0.bytes =~= b.0.bytes);
    }

    /// Builds a channel number from two bytes known to be Base36 (second
    /// byte `0` for a one-character channel).
    pub fn from_valid(bytes: [u8; 2]) -> (r: Self)
        requires
            channel_bytes_ok(bytes@[0], bytes@[1]),
        ensures
            r.idx().byte0() == bytes@[0],
            r.idx().byte1() == bytes@[1],
    {
        ChannelIndex(BmsIndex::from_valid(bytes[0], bytes[1]))
    }

    /// The underlying bytes.
    pub fn as_bytes(&self) -> (r: &[u8])
        ensures
            r@ == self@,
            1 <= r@.len() <= 2,
            forall|i: int| 0 <= i < r@.len() ==> base36_byte(#[trigger] r@[i]),
    {
        proof {
            use_type_invariant(self);
        }
        self.0.as_bytes()
    }

    /// The channel number read as a hexadecimal byte.
    pub fn as_u8_hex(&self) -> (r: Option<u8>)
        ensures
            r == hex_text(self@),
    {
        self.0.as_u8_hex()
    }

    /// A reference to the underlying index.
    pub fn as_bms_index(&self) -> (r: &BmsIndex)
        ensures
            *r == self.idx(),
    {
        &self.0
    }

    /// Converts into the underlying index.
    pub fn into_bms_index(self) -> (r: BmsIndex)
        ensures
            r == self.idx(),
    {
        self.0
    }

    /// The text of this channel number.
    pub fn to_string(&self) -> (r: String)
        ensures
            r@ == self@.map_values(|b: u8| b as char),
    {
        self.0.as_str()
    }

    /// Parses a 1–2 character Base36 channel number (upper case only).
    pub fn try_from(s: &str) -> (r: Result<Self, BmsIndexError>)
        ensures
            r is Ok <==> channel_text_ok(s@),
            r matches Ok(c) ==> ascii_text(c@) == s@ && c@ == text_bytes(s@),
            r matches Err(e) ==> e.input@ == s@,
    {
        let cs = crate::text::chars_of(s);
        let n = cs.len();
        if n == 1 && is_base36_char(cs[0]) {
            let r = ChannelIndex(BmsIndex::from_valid(char_byte(cs[0]), 0));
            assert(ascii_text(r@) =~= s@);
            assert(r@ =~= text_bytes(s@));
            Ok(r)
        } else if n == 2 && is_base36_char(cs[0]) && is_base36_char(cs[1]) {
            let r = ChannelIndex(BmsIndex::from_valid(char_byte(cs[0]), char_byte(cs[1])));
            assert(ascii_text(r@) =~= s@);
            assert(r@ =~= text_bytes(s@));
            Ok(r)
        } else {
            Err(BmsIndexError { input: s.to_owned() })
        }
    }
}

/// Whether `s` is the text of a valid channel number: one or two Base36
/// characters.
pub open spec fn channel_text_ok(s: Seq<char>) -> bool {
    (s.len() == 1 && base36_char(s[0])) || (s.len() == 2 && base36_char(s[0]) && base36_char(s[1]))
}

impl core::str::FromStr for ChannelIndex {
    type Err = BmsIndexError;

    fn from_str(s: &str) -> (r: Result<Self, Self::Err>)
        ensures
            r is Ok <==> channel_text_ok(s@),
            r matches Ok(c) ==> ascii_text(c@) == s@ && c@ == text_bytes(s@),
            r matches Err(e) ==> e.input@ == s@,
    {
        ChannelIndex::try_from(s)
    }
}

/// Reading back the text of an index gives the index.
pub proof fn lemma_index_text_roundtrip(b: BmsIndex)
    requires
        index_text_ok(ascii_text(b@)),
    ensures
        index_from_text(ascii_text(b@)) == b,
{
    let t = ascii_text(b@);
    assert(text_bytes(t) =~= b@) by {
        assert forall|i: int| 0 <= i < b@.len() implies #[trigger] text_bytes(t)[i] == b@[i] by {
            let x = b@[i];
            assert(t[i] == x as char);
            assert(((x as char) as u32) as u8 == x);
        }
    }
    let c = index_from_text(t);
    assert(c@ == text_bytes(t));
    lemma_index_view_injective(c, b);
}

// ---------------------------------------------------------------------------
// Laws of indices
// ---------------------------------------------------------------------------

/// Reading back the bytes of a text of bytes gives the bytes.
pub proof fn lemma_text_bytes_of_ascii(b: Seq<u8>)
    ensures
        text_bytes(ascii_text(b)) == b,
{
    assert forall|i: int| 0 <= i < b.len() implies #[trigger] text_bytes(ascii_text(b))[i] == b[i] by {
        let x = b[i];
        assert(ascii_text(b)[i] == x as char);
        assert(((x as char) as u32) as u8 == x);
    }
    assert(text_bytes(ascii_text(b)) =~= b);
}

/// Every valid channel text is the text of a channel number.
pub proof fn lemma_channel_index_exists(t: Seq<char>)
    requires
        channel_text_ok(t),
    ensures
        exists|ch: ChannelIndex| ch@ == text_bytes(t),
{
    broadcast use vstd::array::group_array_axioms;

    let b0 = (t[0] as u32) as u8;
    let b1: u8 = if t.len() == 2 {
        (t[1] as u32) as u8
    } else {
        0
    };
    let ch = ChannelIndex(BmsIndex { bytes: [b0, b1] });
    assert(ch.idx().byte0() == b0);
    assert(ch.idx().byte1() == b1);
    assert(ch@ =~= text_bytes(t));
}

/// An index read from a text gives the radix-16 value of that text as its
/// hexadecimal value: both digits (or the one digit) read as hexadecimal,
/// upper or lower case, and `None` when one is not a hexadecimal digit.
pub proof fn lemma_index_hex_of_text(idx: BmsIndex, s: Seq<char>)
    requires
        ascii_text(idx@) == s,
    ensures
        hex_text(idx@) == hex_text(text_bytes(s)),
{
    lemma_text_bytes_of_ascii(idx@);
}

/// Upper-casing for the Base36 and Base16 sets: both give the same bytes,
/// upper-casing again changes nothing, and an index read from a Base62 text
/// becomes valid in Base36.
pub proof fn lemma_normalize_upper(b0: u8, b1: u8)
    requires
        base62_byte(b0),
        b1 == 0 || base62_byte(b1),
    ensures
        upper_byte(upper_byte(b0)) == upper_byte(b0),
        upper_byte(upper_byte(b1)) == upper_byte(b1),
        BmsBase::Base36.valid_byte(upper_byte(b0)),
        upper_byte(b1) == 0 || BmsBase::Base36.valid_byte(upper_byte(b1)),
{
}

/// A channel number read from a text is the index read from the same
/// text: its index has the same bytes.
pub proof fn lemma_channel_index_is_index(c: ChannelIndex, b: BmsIndex, s: Seq<char>)
    requires
        c@ == text_bytes(s),
        ascii_text(b@) == s,
    ensures
        c.idx() == b,
        c.idx()@ == b@,
{
    lemma_text_bytes_of_ascii(b@);
    lemma_index_view_injective(c.idx(), b);
}

} // verus!
