//! Text encodings of BMS files: detection from byte-order marks and the
//! `#CHARSET` header, and decoding through `encoding_rs`.

use vstd::prelude::*;

use crate::text::{eq_ignore_case, trim, upper};
use vstd::utf8::{decode_utf8, valid_utf8};

verus! {

/// The text encoding of a BMS file.
#[derive(Debug, Clone, Copy, PartialEq, Eq, Structural)]
pub enum BmsEncoding {
    /// UTF-8 (possibly with a byte-order mark).
    Utf8,
    /// UTF-16, little-endian, with a byte-order mark.
    Utf16Le,
    /// UTF-16, big-endian, with a byte-order mark.
    Utf16Be,
    /// Shift_JIS (common in Japanese charts).
    ShiftJis,
    /// EUC-KR (common in Korean charts).
    EucKr,
}

// ---------------------------------------------------------------------------
// encoding_rs
// ---------------------------------------------------------------------------

/// What `encoding_rs`'s `Encoding::decode` gives for the encoding `enc`
/// and the input `bytes`: the decoded text and whether malformed sequences
/// were replaced.
pub uninterp spec fn rs_decode(enc: BmsEncoding, bytes: Seq<u8>) -> (Seq<char>, bool);

/// `encoding_rs::Encoding::decode` on the `encoding_rs` encoding that `enc`
/// names (`UTF_8`, `UTF_16LE`, `UTF_16BE`, `SHIFT_JIS`, `EUC_KR`).  The
/// contract claims only that the result is the call's result for these
/// arguments; what the decoders compute (including their byte-order-mark
/// sniffing) is left unsaid.
#[verifier::external_body]
fn rs_decode_call(enc: BmsEncoding, bytes: &[u8]) -> (r: (String, bool))
    ensures
        (r.0@, r.1) == rs_decode(enc, bytes@),
{
    let e = match enc {
        BmsEncoding::Utf8 => encoding_rs::UTF_8,
        BmsEncoding::Utf16Le => encoding_rs::UTF_16LE,
        BmsEncoding::Utf16Be => encoding_rs::UTF_16BE,
        BmsEncoding::ShiftJis => encoding_rs::SHIFT_JIS,
        BmsEncoding::EucKr => encoding_rs::EUC_KR,
    };
    let (text, _used, had_errors) = e.decode(bytes);
    (text.into_owned(), had_errors)
}

/// The name of the encoding that `encoding_rs`'s `Encoding::for_label`
/// finds for a label, if any.
pub uninterp spec fn rs_label_name(label: Seq<char>) -> Option<Seq<char>>;

/// `encoding_rs::Encoding::for_label` on the bytes of `label`, the encoding
/// found taken by its name.  The contract claims only that the result is
/// the call's result for this label; which labels are known is left
/// unsaid.
#[verifier::external_body]
fn rs_for_label(label: &str) -> (r: Option<String>)
    ensures
        match r {
            Some(n) => rs_label_name(label@) == Some(n@),
            None => rs_label_name(label@) is None,
        },
{
    encoding_rs::Encoding::for_label(label.as_bytes()).map(|e| e.name().to_owned())
}

/// `std::str::from_utf8`: `Some` with the decoded text exactly when the
/// bytes are valid UTF-8, as the standard library documents.
#[verifier::external_body]
fn utf8_text(bytes: &[u8]) -> (r: Option<String>)
    ensures
        r is Some <==> valid_utf8(bytes@),
        r matches Some(s) ==> s@ == decode_utf8(bytes@),
{
    match core::str::from_utf8(bytes) {
        Ok(s) => Some(s.to_owned()),
        Err(_) => None,
    }
}

// ---------------------------------------------------------------------------
// Decoding
// ---------------------------------------------------------------------------

/// Whether `b` starts with `p`.
pub open spec fn bytes_start_with(b: Seq<u8>, p: Seq<u8>) -> bool {
    p.len() <= b.len() && b.take(p.len() as int) == p
}

/// The UTF-8 byte-order mark.
pub open spec fn bom_utf8() -> Seq<u8> {
    seq![0xEFu8, 0xBBu8, 0xBFu8]
}

/// The UTF-16LE byte-order mark.
pub open spec fn bom_utf16le() -> Seq<u8> {
    seq![0xFFu8, 0xFEu8]
}

/// The UTF-16BE byte-order mark.
pub open spec fn bom_utf16be() -> Seq<u8> {
    seq![0xFEu8, 0xFFu8]
}

/// The input handed to the decoder: the encoding's own byte-order mark, if
/// the input starts with it, is removed first (UTF-8 and UTF-16 only).
pub open spec fn decoder_input(enc: BmsEncoding, input: Seq<u8>) -> Seq<u8> {
    match enc {
        BmsEncoding::Utf8 => if bytes_start_with(input, bom_utf8()) {
            input.skip(3)
        } else {
            input
        },
        BmsEncoding::Utf16Le => if bytes_start_with(input, bom_utf16le()) {
            input.skip(2)
        } else {
            input
        },
        BmsEncoding::Utf16Be => if bytes_start_with(input, bom_utf16be()) {
            input.skip(2)
        } else {
            input
        },
        _ => input,
    }
}

fn starts_with_bytes(b: &[u8], p: &[u8]) -> (r: bool)
    ensures
        r == bytes_start_with(b@, p@),
{
    if p.len() > b.len() {
        return false;
    }
    let mut i: usize = 0;
    while i < p.len()
        invariant
            i <= p@.len() <= b@.len(),
            forall|j: int| 0 <= j < i ==> b@[j] == p@[j],
        decreases p.len() - i,
    {
        if b[i] != p[i] {
            assert(b@.take(p@.len() as int)[i as int] != p@[i as int]);
            return false;
        }
        i = i + 1;
    }
    assert(b@.take(p@.len() as int) =~= p@);
    true
}

impl BmsEncoding {
    /// Decodes bytes to text with `encoding_rs`, removing this encoding's
    /// byte-order mark first.
    pub fn decode(&self, input: &[u8]) -> (r: String)
        ensures
            r@ == rs_decode(*self, decoder_input(*self, input@)).0,
    {
        let utf8_bom: [u8; 3] = [0xEF, 0xBB, 0xBF];
        let le_bom: [u8; 2] = [0xFF, 0xFE];
        let be_bom: [u8; 2] = [0xFE, 0xFF];
        proof {
            assert(utf8_bom@ =~= bom_utf8());
            assert(le_bom@ =~= bom_utf16le());
            assert(be_bom@ =~= bom_utf16be());
        }
        let data: &[u8] = match self {
            BmsEncoding::Utf8 => if starts_with_bytes(input, utf8_bom.as_slice()) {
                vstd::slice::slice_subrange(input, 3, input.len())
            } else {
                input
            },
            BmsEncoding::Utf16Le => if starts_with_bytes(input, le_bom.as_slice()) {
                vstd::slice::slice_subrange(input, 2, input.len())
            } else {
                input
            },
            BmsEncoding::Utf16Be => if starts_with_bytes(input, be_bom.as_slice()) {
                vstd::slice::slice_subrange(input, 2, input.len())
            } else {
                input
            },
            _ => input,
        };
        assert(data@ =~= decoder_input(*self, input@));
        let (text, _had_errors) = rs_decode_call(*self, data);
        text
    }
}

// ---------------------------------------------------------------------------
// Detection
// ---------------------------------------------------------------------------

/// Whether byte `b` is ASCII whitespace.
pub open spec fn ascii_ws_byte(b: u8) -> bool {
    b == 0x20 || b == 0x09 || b == 0x0A || b == 0x0C || b == 0x0D
}

/// ASCII upper-casing of a byte.
pub open spec fn upper_byte(b: u8) -> u8 {
    if 0x61 <= b <= 0x7A {
        (b - 0x20) as u8
    } else {
        b
    }
}

/// Whether `b[i..i + 7]` spells `CHARSET`, ignoring ASCII case.
pub open spec fn charset_keyword_at(b: Seq<u8>, i: int) -> bool {
    &&& 0 <= i && i + 7 <= b.len()
    &&& upper_byte(b[i]) == 0x43
    &&& upper_byte(b[i + 1]) == 0x48
    &&& upper_byte(b[i + 2]) == 0x41
    &&& upper_byte(b[i + 3]) == 0x52
    &&& upper_byte(b[i + 4]) == 0x53
    &&& upper_byte(b[i + 5]) == 0x45
    &&& upper_byte(b[i + 6]) == 0x54
}

/// The first position at or after `i` whose byte is not ASCII whitespace.
pub open spec fn skip_ws_bytes(b: Seq<u8>, i: int) -> int
    decreases b.len() - i,
{
    if 0 <= i < b.len() && ascii_ws_byte(b[i]) {
        skip_ws_bytes(b, i + 1)
    } else {
        i
    }
}

/// The first position at or after `i` that holds `\n` or `\r`, or the end.
pub open spec fn line_end_bytes(b: Seq<u8>, i: int) -> int
    decreases b.len() - i,
{
    if 0 <= i < b.len() && b[i] != 0x0A && b[i] != 0x0D {
        line_end_bytes(b, i + 1)
    } else {
        i
    }
}

/// Whether `i` starts a line: the first byte, or one after `\n` or `\r`.
pub open spec fn byte_line_start(b: Seq<u8>, i: int) -> bool {
    i == 0 || (0 < i <= b.len() && (b[i - 1] == 0x0A || b[i - 1] == 0x0D))
}

/// The value of the first `#CHARSET` / `%CHARSET` directive at a line start
/// from position `i` on: the rest of its line after the keyword and any
/// whitespace, which must be valid UTF-8.  The scan gives up (`None`) at a
/// directive with nothing after the keyword or with a value that is not
/// UTF-8.
pub open spec fn scan_charset_from(b: Seq<u8>, i: int) -> Option<Seq<char>>
    decreases b.len() - i,
{
    if i < 0 || i >= b.len() {
        None
    } else if !byte_line_start(b, i) || (b[i] != 0x23 && b[i] != 0x25) || !charset_keyword_at(
        b,
        i + 1,
    ) {
        scan_charset_from(b, i + 1)
    } else {
        let vs = skip_ws_bytes(b, i + 8);
        let ve = line_end_bytes(b, vs);
        if vs >= b.len() || ve == vs {
            None
        } else if !valid_utf8(b.subrange(vs, ve)) {
            None
        } else {
            Some(decode_utf8(b.subrange(vs, ve)))
        }
    }
}

fn upper_byte_exec(b: u8) -> (r: u8)
    ensures
        r == upper_byte(b),
{
    if 0x61 <= b && b <= 0x7A {
        b - 0x20
    } else {
        b
    }
}

/// Scans for a `#CHARSET` / `%CHARSET` value (see [`scan_charset_from`]).
fn scan_charset_header(input: &[u8]) -> (r: Option<String>)
    ensures
        match scan_charset_from(input@, 0) {
            Some(v) => r matches Some(s) && s@ == v,
            None => r is None,
        },
{
    let n = input.len();
    let mut i: usize = 0;
    while i < n
        invariant
            i <= n == input@.len(),
            scan_charset_from(input@, i as int) == scan_charset_from(input@, 0),
        decreases n - i,
    {
        let line_start = i == 0 || input[i - 1] == 0x0A || input[i - 1] == 0x0D;
        let b = input[i];
        let kw = line_start && (b == 0x23 || b == 0x25) && n - i >= 8 && upper_byte_exec(
            input[i + 1],
        ) == 0x43 && upper_byte_exec(input[i + 2]) == 0x48 && upper_byte_exec(input[i + 3])
            == 0x41 && upper_byte_exec(input[i + 4]) == 0x52 && upper_byte_exec(input[i + 5])
            == 0x53 && upper_byte_exec(input[i + 6]) == 0x45 && upper_byte_exec(input[i + 7])
            == 0x54;
        if !kw {
            i = i + 1;
            continue;
        }
        let mut vs = i + 8;
        while vs < n && (input[vs] == 0x20 || input[vs] == 0x09 || input[vs] == 0x0A
            || input[vs] == 0x0C || input[vs] == 0x0D)
            invariant
                i + 8 <= vs <= n == input@.len(),
                skip_ws_bytes(input@, vs as int) == skip_ws_bytes(input@, i + 8),
            decreases n - vs,
        {
            vs = vs + 1;
        }
        let mut ve = vs;
        while ve < n && input[ve] != 0x0A && input[ve] != 0x0D
            invariant
                vs <= ve <= n == input@.len(),
                line_end_bytes(input@, ve as int) == line_end_bytes(input@, vs as int),
            decreases n - ve,
        {
            ve = ve + 1;
        }
        if vs >= n || ve == vs {
            return None;
        }
        let value = vstd::slice::slice_subrange(input, vs, ve);
        return utf8_text(value);
    }
    None
}

/// The encoding that a `#CHARSET` value names: the common spellings of
/// UTF-8, Shift_JIS and EUC-KR first, then whatever `encoding_rs` finds for
/// the label, UTF-8 when it finds nothing else of these three.
pub open spec fn encoding_of_charset(value: Seq<char>) -> BmsEncoding {
    let u = upper(trim(value));
    if u == seq!['U', 'T', 'F', '-', '8'] || u == seq!['U', 'T', 'F', '8'] {
        BmsEncoding::Utf8
    } else if u == seq!['S', 'H', 'I', 'F', 'T', '-', 'J', 'I', 'S'] || u == seq![
        'S',
        'H',
        'I',
        'F',
        'T',
        '_',
        'J',
        'I',
        'S',
    ] || u == seq!['S', 'J', 'I', 'S'] {
        BmsEncoding::ShiftJis
    } else if u == seq!['E', 'U', 'C', '-', 'K', 'R'] || u == seq!['E', 'U', 'C', 'K', 'R'] || u
        == seq!['E', 'U', 'C', '_', 'K', 'R'] {
        BmsEncoding::EucKr
    } else {
        match rs_label_name(u) {
            Some(n) => if n == seq!['S', 'h', 'i', 'f', 't', '_', 'J', 'I', 'S'] {
                BmsEncoding::ShiftJis
            } else if n == seq!['E', 'U', 'C', '-', 'K', 'R'] {
                BmsEncoding::EucKr
            } else {
                BmsEncoding::Utf8
            },
            None => BmsEncoding::Utf8,
        }
    }
}

/// Maps a `#CHARSET` value to an encoding (see [`encoding_of_charset`]).
fn encoding_from_charset_value(value: &str) -> (r: BmsEncoding)
    ensures
        r == encoding_of_charset(value@),
{
    let cs = crate::text::chars_of(value);
    let (a, b) = crate::text::trim_range(&cs, 0, cs.len());
    let u = crate::text::upper_range(&cs, a, b);
    proof {
        assert(cs@.subrange(0, cs@.len() as int) =~= value@);
    }
    let n = u.len();
    if crate::text::range_eq(&u, 0, n, &['U', 'T', 'F', '-', '8']) || crate::text::range_eq(
        &u,
        0,
        n,
        &['U', 'T', 'F', '8'],
    ) {
        assert(u@.subrange(0, n as int) =~= u@);
        return BmsEncoding::Utf8;
    }
    assert(u@.subrange(0, n as int) =~= u@);
    if crate::text::range_eq(&u, 0, n, &['S', 'H', 'I', 'F', 'T', '-', 'J', 'I', 'S'])
        || crate::text::range_eq(&u, 0, n, &['S', 'H', 'I', 'F', 'T', '_', 'J', 'I', 'S'])
        || crate::text::range_eq(&u, 0, n, &['S', 'J', 'I', 'S']) {
        return BmsEncoding::ShiftJis;
    }
    if crate::text::range_eq(&u, 0, n, &['E', 'U', 'C', '-', 'K', 'R']) || crate::text::range_eq(
        &u,
        0,
        n,
        &['E', 'U', 'C', 'K', 'R'],
    ) || crate::text::range_eq(&u, 0, n, &['E', 'U', 'C', '_', 'K', 'R']) {
        return BmsEncoding::EucKr;
    }
    let label = crate::text::string_from(&u);
    match rs_for_label(label.as_str()) {
        Some(name) => {
            let nc = crate::text::chars_of(name.as_str());
            let m = nc.len();
            assert(nc@.subrange(0, m as int) =~= nc@);
            if crate::text::range_eq(&nc, 0, m, &['S', 'h', 'i', 'f', 't', '_', 'J', 'I', 'S']) {
                BmsEncoding::ShiftJis
            } else if crate::text::range_eq(&nc, 0, m, &['E', 'U', 'C', '-', 'K', 'R']) {
                BmsEncoding::EucKr
            } else {
                BmsEncoding::Utf8
            }
        },
        None => BmsEncoding::Utf8,
    }
}

/// The encoding detected for a file's bytes: a byte-order mark decides
/// first, then a `#CHARSET` directive, then whether the bytes are valid
/// UTF-8, then whether Shift_JIS or EUC-KR decodes them without errors;
/// UTF-8 otherwise.
pub open spec fn detected_encoding(input: Seq<u8>) -> BmsEncoding {
    if bytes_start_with(input, bom_utf8()) {
        BmsEncoding::Utf8
    } else if bytes_start_with(input, bom_utf16le()) {
        BmsEncoding::Utf16Le
    } else if bytes_start_with(input, bom_utf16be()) {
        BmsEncoding::Utf16Be
    } else {
        match scan_charset_from(input, 0) {
            Some(v) => encoding_of_charset(v),
            None => if valid_utf8(input) {
                BmsEncoding::Utf8
            } else if !rs_decode(BmsEncoding::ShiftJis, input).1 {
                BmsEncoding::ShiftJis
            } else if !rs_decode(BmsEncoding::EucKr, input).1 {
                BmsEncoding::EucKr
            } else {
                BmsEncoding::Utf8
            },
        }
    }
}

/// Detects the encoding of a BMS file (see [`detected_encoding`]).
pub fn detect_encoding(input: &[u8]) -> (r: BmsEncoding)
    ensures
        r == detected_encoding(input@),
{
    let utf8_bom: [u8; 3] = [0xEF, 0xBB, 0xBF];
    let le_bom: [u8; 2] = [0xFF, 0xFE];
    let be_bom: [u8; 2] = [0xFE, 0xFF];
    proof {
        assert(utf8_bom@ =~= bom_utf8());
        assert(le_bom@ =~= bom_utf16le());
        assert(be_bom@ =~= bom_utf16be());
    }
    if starts_with_bytes(input, utf8_bom.as_slice()) {
        return BmsEncoding::Utf8;
    }
    if starts_with_bytes(input, le_bom.as_slice()) {
        return BmsEncoding::Utf16Le;
    }
    if starts_with_bytes(input, be_bom.as_slice()) {
        return BmsEncoding::Utf16Be;
    }
    if let Some(charset) = scan_charset_header(input) {
        return encoding_from_charset_value(charset.as_str());
    }
    if utf8_text(input).is_some() {
        return BmsEncoding::Utf8;
    }
    let (_sjis, sjis_errors) = rs_decode_call(BmsEncoding::ShiftJis, input);
    if !sjis_errors {
        return BmsEncoding::ShiftJis;
    }
    let (_euc, euc_errors) = rs_decode_call(BmsEncoding::EucKr, input);
    if !euc_errors {
        return BmsEncoding::EucKr;
    }
    BmsEncoding::Utf8
}

// ---------------------------------------------------------------------------
// Laws of detection
// ---------------------------------------------------------------------------

/// Whether a `#CHARSET` / `%CHARSET` directive (keyword in any case) starts
/// at position `j`, at the start of a line.
pub open spec fn charset_directive_at(b: Seq<u8>, j: int) -> bool {
    &&& 0 <= j < b.len()
    &&& byte_line_start(b, j)
    &&& (b[j] == 0x23 || b[j] == 0x25)
    &&& charset_keyword_at(b, j + 1)
}

/// Whether `b1` and `b2` have the same length and agree byte for byte up to
/// ASCII case.
pub open spec fn same_up_to_case(b1: Seq<u8>, b2: Seq<u8>) -> bool {
    &&& b1.len() == b2.len()
    &&& forall|k: int| 0 <= k < b1.len() ==> upper_byte(#[trigger] b1[k]) == upper_byte(b2[k])
}

proof fn lemma_upper_same_class(x: u8, y: u8)
    requires
        upper_byte(x) == upper_byte(y),
    ensures
        x == 0x0A <==> y == 0x0A,
        x == 0x0D <==> y == 0x0D,
        x == 0x23 <==> y == 0x23,
        x == 0x25 <==> y == 0x25,
        ascii_ws_byte(x) <==> ascii_ws_byte(y),
{
}

proof fn lemma_skip_ws_bytes_case(b1: Seq<u8>, b2: Seq<u8>, p: int)
    requires
        same_up_to_case(b1, b2),
    ensures
        skip_ws_bytes(b1, p) == skip_ws_bytes(b2, p),
    decreases b1.len() - p,
{
    if 0 <= p < b1.len() {
        lemma_upper_same_class(b1[p], b2[p]);
        lemma_skip_ws_bytes_case(b1, b2, p + 1);
    }
}

proof fn lemma_line_end_bytes_case(b1: Seq<u8>, b2: Seq<u8>, p: int)
    requires
        same_up_to_case(b1, b2),
    ensures
        line_end_bytes(b1, p) == line_end_bytes(b2, p),
    decreases b1.len() - p,
{
    if 0 <= p < b1.len() {
        lemma_upper_same_class(b1[p], b2[p]);
        lemma_line_end_bytes_case(b1, b2, p + 1);
    }
}

proof fn lemma_skip_ws_bytes_from(b: Seq<u8>, p: int)
    requires
        0 <= p,
    ensures
        p <= skip_ws_bytes(b, p),
    decreases b.len() - p,
{
    if 0 <= p < b.len() && ascii_ws_byte(b[p]) {
        lemma_skip_ws_bytes_from(b, p + 1);
    }
}

proof fn lemma_line_end_bytes_from(b: Seq<u8>, p: int)
    requires
        0 <= p,
    ensures
        p <= line_end_bytes(b, p),
        p <= b.len() ==> line_end_bytes(b, p) <= b.len(),
    decreases b.len() - p,
{
    if 0 <= p < b.len() && b[p] != 0x0A && b[p] != 0x0D {
        lemma_line_end_bytes_from(b, p + 1);
    }
}

proof fn lemma_directive_case(b1: Seq<u8>, b2: Seq<u8>, j: int)
    requires
        same_up_to_case(b1, b2),
    ensures
        charset_directive_at(b1, j) == charset_directive_at(b2, j),
{
    if 0 <= j < b1.len() {
        lemma_upper_same_class(b1[j], b2[j]);
        if j > 0 {
            lemma_upper_same_class(b1[j - 1], b2[j - 1]);
        }
        if j + 8 <= b1.len() {
            assert(upper_byte(b1[j + 1]) == upper_byte(b2[j + 1]));
            assert(upper_byte(b1[j + 2]) == upper_byte(b2[j + 2]));
            assert(upper_byte(b1[j + 3]) == upper_byte(b2[j + 3]));
            assert(upper_byte(b1[j + 4]) == upper_byte(b2[j + 4]));
            assert(upper_byte(b1[j + 5]) == upper_byte(b2[j + 5]));
            assert(upper_byte(b1[j + 6]) == upper_byte(b2[j + 6]));
            assert(upper_byte(b1[j + 7]) == upper_byte(b2[j + 7]));
        }
    }
}

/// Two inputs that agree up to ASCII case, and exactly from `lo` on, give
/// the same scan from any `j` with `lo <= j + 8`: every value read from
/// there lies at or after `lo`.
proof fn lemma_scan_case(b1: Seq<u8>, b2: Seq<u8>, j: int, lo: int)
    requires
        same_up_to_case(b1, b2),
        forall|k: int| lo <= k < b1.len() ==> #[trigger] b1[k] == b2[k],
        lo <= j + 8,
    ensures
        scan_charset_from(b1, j) == scan_charset_from(b2, j),
    decreases b1.len() - j,
{
    if 0 <= j < b1.len() {
        lemma_directive_case(b1, b2, j);
        if charset_directive_at(b1, j) {
            lemma_skip_ws_bytes_case(b1, b2, j + 8);
            let vs = skip_ws_bytes(b1, j + 8);
            lemma_skip_ws_bytes_from(b1, j + 8);
            lemma_line_end_bytes_case(b1, b2, vs);
            let ve = line_end_bytes(b1, vs);
            lemma_line_end_bytes_from(b1, vs);
            if vs < b1.len() {
                assert(b1.subrange(vs, ve) =~= b2.subrange(vs, ve)) by {
                    assert forall|k: int| 0 <= k < ve - vs implies b1.subrange(vs, ve)[k]
                        == b2.subrange(vs, ve)[k] by {
                        assert(b1[vs + k] == b2[vs + k]);
                    }
                }
            }
        } else {
            lemma_scan_case(b1, b2, j + 1, lo);
        }
    }
}

/// With no directive in `j..i`, the scan from `j` is the scan from `i`.
proof fn lemma_scan_passes(b: Seq<u8>, j: int, i: int)
    requires
        0 <= j <= i <= b.len(),
        forall|k: int| j <= k < i ==> !#[trigger] charset_directive_at(b, k),
    ensures
        scan_charset_from(b, j) == scan_charset_from(b, i),
    decreases i - j,
{
    if j < i {
        assert(!charset_directive_at(b, j));
        lemma_scan_passes(b, j + 1, i);
    }
}

/// The `#CHARSET` keyword is recognized in any ASCII case: changing the case
/// of the seven bytes after a `#` or `%` that starts a line, where no
/// directive stands on an earlier line, does not change the `#CHARSET`
/// value found, nor, where a value is found, the detected encoding.
pub proof fn lemma_charset_keyword_case(b1: Seq<u8>, b2: Seq<u8>, i: int)
    requires
        b1.len() == b2.len(),
        0 <= i,
        i + 8 <= b1.len(),
        byte_line_start(b1, i),
        b1[i] == 0x23 || b1[i] == 0x25,
        forall|k: int| 0 <= k < b1.len() && !(i < k < i + 8) ==> #[trigger] b1[k] == b2[k],
        forall|k: int| i < k < i + 8 ==> upper_byte(#[trigger] b1[k]) == upper_byte(b2[k]),
        forall|k: int| 0 <= k < i ==> !#[trigger] charset_directive_at(b1, k),
    ensures
        scan_charset_from(b2, 0) == scan_charset_from(b1, 0),
        scan_charset_from(b1, 0) is Some ==> detected_encoding(b2) == detected_encoding(b1),
{
    assert(same_up_to_case(b1, b2)) by {
        assert forall|k: int| 0 <= k < b1.len() implies upper_byte(#[trigger] b1[k]) == upper_byte(
            b2[k],
        ) by {
            if !(i < k < i + 8) {
                assert(b1[k] == b2[k]);
            }
        }
    }
    assert forall|k: int| 0 <= k < i implies !#[trigger] charset_directive_at(b2, k) by {
        lemma_directive_case(b1, b2, k);
    }
    lemma_scan_passes(b1, 0, i);
    lemma_scan_passes(b2, 0, i);
    assert forall|k: int| i + 8 <= k < b1.len() implies #[trigger] b1[k] == b2[k] by {}
    lemma_scan_case(b1, b2, i, i + 8);
    // the byte-order marks read the first bytes, which the change leaves
    // alone or which rule every mark out
    assert(b1[0] == b2[0]);
    if i >= 1 {
        assert(b1[1] == b2[1]);
    }
    if i >= 2 {
        assert(b1[2] == b2[2]);
        assert(b1.take(3) =~= b2.take(3));
    }
    if i >= 1 {
        assert(b1.take(2) =~= b2.take(2));
    }
    if i == 0 {
        assert(b1.take(3)[0] != bom_utf8()[0]);
        assert(b1.take(2)[0] != bom_utf16le()[0]);
        assert(b1.take(2)[0] != bom_utf16be()[0]);
        assert(b2.take(3)[0] != bom_utf8()[0]);
        assert(b2.take(2)[0] != bom_utf16le()[0]);
        assert(b2.take(2)[0] != bom_utf16be()[0]);
    }
    if i == 1 {
        assert(b1[1] == b1.take(3)[1]);
        assert(b2[1] == b2.take(3)[1]);
        assert(b1.take(3)[1] != bom_utf8()[1]);
        assert(b2.take(3)[1] != bom_utf8()[1]);
    }
}

} // verus!
