//! Typed BMS channels.
//!
//! The channel number of a message line (`#xxxYY:values`) is classified into
//! the known non-note channels, the note channels and the unknown or
//! reserved ones.

use vstd::prelude::*;

use crate::index::{ascii_text, channel_text_ok, hex_text, text_bytes, ChannelIndex};
use crate::text::upper;

verus! {

/// A classified BMS channel.
///
/// Each known non-note channel is a unit variant.  Note channels keep their
/// raw [`ChannelIndex`] for later interpretation; unknown channels keep it
/// too, so that engine-specific channels survive in the token stream.
#[derive(Debug, Clone, Copy, PartialEq, Eq, PartialOrd, Ord)]
pub enum BmsChannel {
    /// Channel `01`: background music.
    Bgm,
    /// Channel `02`: measure length.
    MeasureLength,
    /// Channel `03`: BPM change (hexadecimal integer `01`–`FF`).
    BpmChange,
    /// Channel `04`: BGA base layer.
    BgaBase,
    /// Channel `05`: extended object / SEEK.
    Seek,
    /// Channel `06`: BGA poor (miss) layer.
    BgaPoor,
    /// Channel `07`: BGA overlay layer.
    BgaLayer,
    /// Channel `08`: extended BPM (refers to `#BPMxx` / `#EXBPMxx`).
    ExtendedBpm,
    /// Channel `09`: STOP sequence (refers to `#STOPxx`).
    Stop,
    /// Channel `0A`: BGA second overlay layer.
    BgaLayer2,
    /// Channel `0B`: BGA base opacity.
    BgaBaseOpacity,
    /// Channel `0C`: BGA layer opacity.
    BgaLayerOpacity,
    /// Channel `0D`: BGA second layer opacity.
    BgaLayer2Opacity,
    /// Channel `0E`: BGA poor opacity.
    BgaPoorOpacity,
    /// Channel `97`: BGM volume.
    BgmVolume,
    /// Channel `98`: key volume.
    KeyVolume,
    /// Channel `99`: TEXT (refers to `#TEXTxx`).
    Text,
    /// Channel `A0`: JUDGE / EXRANK.
    Judge,
    /// Channel `A1`: BGA base aRGB.
    BgaArgbBase,
    /// Channel `A2`: BGA layer aRGB.
    BgaArgbLayer,
    /// Channel `A3`: BGA second layer aRGB.
    BgaArgbLayer2,
    /// Channel `A4`: BGA poor aRGB.
    BgaArgbPoor,
    /// Channel `A5`: BGA key bound.
    BgaKeyBound,
    /// Channel `A6`: OPTION.
    Option,
    /// Channel `SC`: scroll-speed multiplier.
    Scroll,
    /// Channel `SP`: visual note spacing.
    Speed,
    /// A note channel in one of the playable ranges `11`–`1Z` … `61`–`6Z`,
    /// `D1`–`D9`, `E1`–`E9`.
    Note(ChannelIndex),
    /// An unknown or reserved channel (`00`, `0F`, `10`, `70`–`96`, `ZZ`, …).
    Unknown(ChannelIndex),
}

/// Two ASCII characters as bytes.
pub open spec fn code2(a: char, b: char) -> Seq<u8> {
    seq![a as u8, b as u8]
}

/// Whether `c` is one of the named channels (not `Note`, not `Unknown`).
pub open spec fn is_named(c: BmsChannel) -> bool {
    !(c is Note) && !(c is Unknown)
}

/// The channel's code as written in a message line: the canonical two
/// characters of a named channel, the raw index of the others.
pub open spec fn channel_code(c: BmsChannel) -> Seq<u8> {
    match c {
        BmsChannel::Bgm => code2('0', '1'),
        BmsChannel::MeasureLength => code2('0', '2'),
        BmsChannel::BpmChange => code2('0', '3'),
        BmsChannel::BgaBase => code2('0', '4'),
        BmsChannel::Seek => code2('0', '5'),
        BmsChannel::BgaPoor => code2('0', '6'),
        BmsChannel::BgaLayer => code2('0', '7'),
        BmsChannel::ExtendedBpm => code2('0', '8'),
        BmsChannel::Stop => code2('0', '9'),
        BmsChannel::BgaLayer2 => code2('0', 'A'),
        BmsChannel::BgaBaseOpacity => code2('0', 'B'),
        BmsChannel::BgaLayerOpacity => code2('0', 'C'),
        BmsChannel::BgaLayer2Opacity => code2('0', 'D'),
        BmsChannel::BgaPoorOpacity => code2('0', 'E'),
        BmsChannel::BgmVolume => code2('9', '7'),
        BmsChannel::KeyVolume => code2('9', '8'),
        BmsChannel::Text => code2('9', '9'),
        BmsChannel::Judge => code2('A', '0'),
        BmsChannel::BgaArgbBase => code2('A', '1'),
        BmsChannel::BgaArgbLayer => code2('A', '2'),
        BmsChannel::BgaArgbLayer2 => code2('A', '3'),
        BmsChannel::BgaArgbPoor => code2('A', '4'),
        BmsChannel::BgaKeyBound => code2('A', '5'),
        BmsChannel::Option => code2('A', '6'),
        BmsChannel::Scroll => code2('S', 'C'),
        BmsChannel::Speed => code2('S', 'P'),
        BmsChannel::Note(ch) => ch@,
        BmsChannel::Unknown(ch) => ch@,
    }
}

/// A one-character channel reads as its two-character form with a leading
/// `0`.
pub open spec fn padded(b: Seq<u8>) -> Seq<u8> {
    if b.len() == 1 {
        seq!['0' as u8] + b
    } else {
        b
    }
}

/// Whether a channel code lies in a playable note range: `1`–`6` followed by
/// anything but `0`, or `D`/`E` followed by `1`–`9`.
pub open spec fn note_code(b: Seq<u8>) -> bool {
    &&& b.len() == 2
    &&& (('1' as u8 <= b[0] && b[0] <= '6' as u8 && b[1] != '0' as u8) || ((b[0] == 'D' as u8
        || b[0] == 'E' as u8) && '1' as u8 <= b[1] && b[1] <= '9' as u8))
}

/// The channel that a channel number denotes: the named channel whose code
/// is the (padded) number, else a note channel in the playable ranges, else
/// an unknown channel.
pub open spec fn classified(ch: ChannelIndex, r: BmsChannel) -> bool {
    if exists|v: BmsChannel| is_named(v) && channel_code(v) == padded(ch@) {
        is_named(r) && channel_code(r) == padded(ch@)
    } else if note_code(ch@) {
        r == BmsChannel::Note(ch)
    } else {
        r == BmsChannel::Unknown(ch)
    }
}

/// Distinct named channels have distinct codes, so a code names at most one
/// channel.
pub proof fn lemma_named_codes_distinct(a: BmsChannel, b: BmsChannel)
    requires
        is_named(a),
        is_named(b),
        channel_code(a) == channel_code(b),
    ensures
        a == b,
{
    assert(channel_code(a)[0] == channel_code(b)[0]);
    assert(channel_code(a)[1] == channel_code(b)[1]);
}

/// Classifying the code of a classified channel gives back the same
/// channel: a channel survives being written out and read again.
pub proof fn lemma_classify_code_roundtrip(
    ch: ChannelIndex,
    c: BmsChannel,
    written: ChannelIndex,
    c2: BmsChannel,
)
    requires
        classified(ch, c),
        written@ == channel_code(c),
        classified(written, c2),
    ensures
        c2 == c,
{
    if is_named(c) {
        assert(channel_code(c).len() == 2);
        assert(padded(written@) == channel_code(c));
        assert(is_named(c) && channel_code(c) == padded(written@));
        lemma_named_codes_distinct(c, c2);
    } else {
        assert(written@ == ch@);
        ChannelIndex::lemma_view_injective(written, ch);
    }
}

/// A classified channel is unique: a channel number denotes one channel.
pub proof fn lemma_classified_unique(ch: ChannelIndex, c1: BmsChannel, c2: BmsChannel)
    requires
        classified(ch, c1),
        classified(ch, c2),
    ensures
        c1 == c2,
{
    if exists|v: BmsChannel| is_named(v) && channel_code(v) == padded(ch@) {
        lemma_named_codes_distinct(c1, c2);
    }
}

/// The channel number whose bytes are those of the text `t`.
pub open spec fn channel_index_of(t: Seq<char>) -> ChannelIndex {
    choose|ch: ChannelIndex| ch@ == text_bytes(t)
}

/// The channel that a channel number denotes.
pub open spec fn classify(ch: ChannelIndex) -> BmsChannel {
    choose|c: BmsChannel| classified(ch, c)
}

/// The channel that a channel text denotes.
pub open spec fn channel_of_text(t: Seq<char>) -> BmsChannel {
    classify(channel_index_of(t))
}

/// Classifies a validated channel number.  Every channel number maps to
/// exactly one variant.
pub fn classify_channel(ch: ChannelIndex) -> (r: BmsChannel)
    ensures
        classified(ch, r),
        r == classify(ch),
{
    let r = classify_channel_raw(ch);
    proof {
        lemma_classified_unique(ch, r, classify(ch));
    }
    r
}

fn classify_channel_raw(ch: ChannelIndex) -> (r: BmsChannel)
    ensures
        classified(ch, r),
{
    let bytes = ch.as_bytes();
    if bytes.len() == 1 {
        let b = bytes[0];
        let r = if b == 49 {
            BmsChannel::Bgm
        } else if b == 50 {
            BmsChannel::MeasureLength
        } else if b == 51 {
            BmsChannel::BpmChange
        } else if b == 52 {
            BmsChannel::BgaBase
        } else if b == 53 {
            BmsChannel::Seek
        } else if b == 54 {
            BmsChannel::BgaPoor
        } else if b == 55 {
            BmsChannel::BgaLayer
        } else if b == 56 {
            BmsChannel::ExtendedBpm
        } else if b == 57 {
            BmsChannel::Stop
        } else if b == 65 {
            BmsChannel::BgaLayer2
        } else if b == 66 {
            BmsChannel::BgaBaseOpacity
        } else if b == 67 {
            BmsChannel::BgaLayerOpacity
        } else if b == 68 {
            BmsChannel::BgaLayer2Opacity
        } else if b == 69 {
            BmsChannel::BgaPoorOpacity
        } else {
            BmsChannel::Unknown(ch)
        };
        proof {
            let p = padded(ch@);
            assert(p =~= seq![48u8, b]);
            if is_named(r) {
                assert(channel_code(r) =~= p);
            } else {
                assert forall|v: BmsChannel| is_named(v) implies channel_code(v) != p by {
                    assert(channel_code(v)[1] != p[1] || channel_code(v)[0] != p[0]);
                }
            }
        }
        r
    } else {
        let first = bytes[0];
        let second = bytes[1];
        let named = if first == 48 {
            if second == 49 {
                Some(BmsChannel::Bgm)
            } else if second == 50 {
                Some(BmsChannel::MeasureLength)
            } else if second == 51 {
                Some(BmsChannel::BpmChange)
            } else if second == 52 {
                Some(BmsChannel::BgaBase)
            } else if second == 53 {
                Some(BmsChannel::Seek)
            } else if second == 54 {
                Some(BmsChannel::BgaPoor)
            } else if second == 55 {
                Some(BmsChannel::BgaLayer)
            } else if second == 56 {
                Some(BmsChannel::ExtendedBpm)
            } else if second == 57 {
                Some(BmsChannel::Stop)
            } else if second == 65 {
                Some(BmsChannel::BgaLayer2)
            } else if second == 66 {
                Some(BmsChannel::BgaBaseOpacity)
            } else if second == 67 {
                Some(BmsChannel::BgaLayerOpacity)
            } else if second == 68 {
                Some(BmsChannel::BgaLayer2Opacity)
            } else if second == 69 {
                Some(BmsChannel::BgaPoorOpacity)
            } else {
                None
            }
        } else if first == 57 {
            if second == 55 {
                Some(BmsChannel::BgmVolume)
            } else if second == 56 {
                Some(BmsChannel::KeyVolume)
            } else if second == 57 {
                Some(BmsChannel::Text)
            } else {
                None
            }
        } else if first == 65 {
            if second == 48 {
                Some(BmsChannel::Judge)
            } else if second == 49 {
                Some(BmsChannel::BgaArgbBase)
            } else if second == 50 {
                Some(BmsChannel::BgaArgbLayer)
            } else if second == 51 {
                Some(BmsChannel::BgaArgbLayer2)
            } else if second == 52 {
                Some(BmsChannel::BgaArgbPoor)
            } else if second == 53 {
                Some(BmsChannel::BgaKeyBound)
            } else if second == 54 {
                Some(BmsChannel::Option)
            } else {
                None
            }
        } else if first == 83 {
            if second == 67 {
                Some(BmsChannel::Scroll)
            } else if second == 80 {
                Some(BmsChannel::Speed)
            } else {
                None
            }
        } else {
            None
        };
        let ghost p = padded(ch@);
        proof {
            assert(p =~= seq![first, second]);
        }
        match named {
            Some(v) => {
                assert(channel_code(v) =~= p);
                v
            },
            None => {
                proof {
                    assert forall|v: BmsChannel| is_named(v) implies channel_code(v) != p by {
                        assert(channel_code(v)[1] != p[1] || channel_code(v)[0] != p[0]);
                    }
                }
                if 49 <= first && first <= 54 && second != 48 {
                    BmsChannel::Note(ch)
                } else if (first == 68 || first == 69) && 49 <= second && second <= 57 {
                    BmsChannel::Note(ch)
                } else {
                    BmsChannel::Unknown(ch)
                }
            },
        }
    }
}

/// The channel that a raw channel text denotes once upper-cased: `None`
/// unless that is a 1–2 character Base36 number.
pub open spec fn channel_from_raw(s: Seq<char>) -> Option<BmsChannel> {
    if channel_text_ok(upper(s)) {
        Some(channel_of_text(upper(s)))
    } else {
        None
    }
}

impl BmsChannel {
    /// Classifies a raw channel text, upper-casing it first.  `None` unless
    /// the text is a 1–2 character Base36 number.
    pub fn from_raw(s: &str) -> (r: Option<Self>)
        ensures
            r == channel_from_raw(s@),
            r is Some <==> channel_text_ok(upper(s@)),
            r matches Some(c) ==> exists|ch: ChannelIndex|
                ascii_text(ch@) == upper(s@) && #[trigger] classified(ch, c),
    {
        let cs = crate::text::chars_of(s);
        let up = crate::text::upper_range(&cs, 0, cs.len());
        let us = crate::text::string_from(&up);
        proof {
            assert(cs@.subrange(0, cs@.len() as int) =~= s@);
        }
        match ChannelIndex::try_from(us.as_str()) {
            Ok(ch) => {
                let c = classify_channel(ch);
                assert(classified(ch, c));
                proof {
                    let t = upper(s@);
                    let w = channel_index_of(t);
                    assert(ch@ == text_bytes(t));
                    assert(w@ == text_bytes(t));
                    ChannelIndex::lemma_view_injective(w, ch);
                }
                Some(c)
            },
            Err(_) => None,
        }
    }

    /// The channel's value as a hexadecimal byte, where its code is one:
    /// named channels give their canonical value (`Bgm` is `0x01`), `Scroll`
    /// and `Speed` give `None`, note and unknown channels read their index.
    pub fn as_u8_hex(&self) -> (r: Option<u8>)
        ensures
            r == hex_text(channel_code(*self)),
    {
        let r = match self {
            BmsChannel::Bgm => Some(0x01u8),
            BmsChannel::MeasureLength => Some(0x02u8),
            BmsChannel::BpmChange => Some(0x03u8),
            BmsChannel::BgaBase => Some(0x04u8),
            BmsChannel::Seek => Some(0x05u8),
            BmsChannel::BgaPoor => Some(0x06u8),
            BmsChannel::BgaLayer => Some(0x07u8),
            BmsChannel::ExtendedBpm => Some(0x08u8),
            BmsChannel::Stop => Some(0x09u8),
            BmsChannel::BgaLayer2 => Some(0x0Au8),
            BmsChannel::BgaBaseOpacity => Some(0x0Bu8),
            BmsChannel::BgaLayerOpacity => Some(0x0Cu8),
            BmsChannel::BgaLayer2Opacity => Some(0x0Du8),
            BmsChannel::BgaPoorOpacity => Some(0x0Eu8),
            BmsChannel::BgmVolume => Some(0x97u8),
            BmsChannel::KeyVolume => Some(0x98u8),
            BmsChannel::Text => Some(0x99u8),
            BmsChannel::Judge => Some(0xA0u8),
            BmsChannel::BgaArgbBase => Some(0xA1u8),
            BmsChannel::BgaArgbLayer => Some(0xA2u8),
            BmsChannel::BgaArgbLayer2 => Some(0xA3u8),
            BmsChannel::BgaArgbPoor => Some(0xA4u8),
            BmsChannel::BgaKeyBound => Some(0xA5u8),
            BmsChannel::Option => Some(0xA6u8),
            BmsChannel::Scroll => None,
            BmsChannel::Speed => None,
            BmsChannel::Note(raw) => raw.as_u8_hex(),
            BmsChannel::Unknown(raw) => raw.as_u8_hex(),
        };
        r
    }

    /// The channel's code as text: `"01"` for `Bgm`, `"SC"` for `Scroll`,
    /// the raw index for note and unknown channels.
    pub fn to_string(&self) -> (r: String)
        ensures
            r@ == ascii_text(channel_code(*self)),
    {
        let (a, b) = match self {
            BmsChannel::Bgm => ('0', '1'),
            BmsChannel::MeasureLength => ('0', '2'),
            BmsChannel::BpmChange => ('0', '3'),
            BmsChannel::BgaBase => ('0', '4'),
            BmsChannel::Seek => ('0', '5'),
            BmsChannel::BgaPoor => ('0', '6'),
            BmsChannel::BgaLayer => ('0', '7'),
            BmsChannel::ExtendedBpm => ('0', '8'),
            BmsChannel::Stop => ('0', '9'),
            BmsChannel::BgaLayer2 => ('0', 'A'),
            BmsChannel::BgaBaseOpacity => ('0', 'B'),
            BmsChannel::BgaLayerOpacity => ('0', 'C'),
            BmsChannel::BgaLayer2Opacity => ('0', 'D'),
            BmsChannel::BgaPoorOpacity => ('0', 'E'),
            BmsChannel::BgmVolume => ('9', '7'),
            BmsChannel::KeyVolume => ('9', '8'),
            BmsChannel::Text => ('9', '9'),
            BmsChannel::Judge => ('A', '0'),
            BmsChannel::BgaArgbBase => ('A', '1'),
            BmsChannel::BgaArgbLayer => ('A', '2'),
            BmsChannel::BgaArgbLayer2 => ('A', '3'),
            BmsChannel::BgaArgbPoor => ('A', '4'),
            BmsChannel::BgaKeyBound => ('A', '5'),
            BmsChannel::Option => ('A', '6'),
            BmsChannel::Scroll => ('S', 'C'),
            BmsChannel::Speed => ('S', 'P'),
            BmsChannel::Note(raw) => {
                return raw.to_string();
            },
            BmsChannel::Unknown(raw) => {
                return raw.to_string();
            },
        };
        let r = crate::text::string_from(&[a, b]);
        assert(r@ =~= ascii_text(channel_code(*self)));
        r
    }
}

/// Every channel number is classified as some channel.
pub proof fn lemma_classified_exists(ch: ChannelIndex)
    ensures
        classified(ch, classify(ch)),
{
    if exists|v: BmsChannel| is_named(v) && channel_code(v) == padded(ch@) {
        let v = choose|v: BmsChannel| is_named(v) && channel_code(v) == padded(ch@);
        assert(classified(ch, v));
    } else if note_code(ch@) {
        assert(classified(ch, BmsChannel::Note(ch)));
    } else {
        assert(classified(ch, BmsChannel::Unknown(ch)));
    }
}

/// The channel that a raw text denotes, with the channel number it was
/// read from.
proof fn lemma_from_raw_code(s: Seq<char>) -> (ch: ChannelIndex)
    requires
        channel_from_raw(s) is Some,
    ensures
        ch@ == text_bytes(upper(s)),
        classified(ch, channel_from_raw(s).unwrap()),
        padded(ch@) == padded(text_bytes(upper(s))),
{
    let t = upper(s);
    crate::index::lemma_channel_index_exists(t);
    let ch = channel_index_of(t);
    lemma_classified_exists(ch);
    ch
}

/// A two-character text that reads as a channel is written back as the
/// same text upper-cased.
pub proof fn lemma_from_raw_written_back(s: Seq<char>)
    requires
        s.len() == 2,
        channel_from_raw(s) is Some,
    ensures
        ascii_text(channel_code(channel_from_raw(s).unwrap())) == upper(s),
{
    let ch = lemma_from_raw_code(s);
    let t = upper(s);
    let c = channel_from_raw(s).unwrap();
    assert(channel_code(c) == text_bytes(t));
    assert forall|i: int| 0 <= i < t.len() implies #[trigger] ascii_text(text_bytes(t))[i] == t[i] by {
        assert(crate::index::base36_char(t[i]));
    }
    assert(ascii_text(text_bytes(t)) =~= t);
}

proof fn lemma_hex_upper(b: u8)
    ensures
        crate::index::hex_value(crate::index::upper_byte(b)) == crate::index::hex_value(b),
{
}

/// The hexadecimal value of a channel read from a raw text is the radix-16
/// value of that text (`None` unless every character is a hexadecimal
/// digit); a one-character text reads as its one digit.
pub proof fn lemma_from_raw_hex(s: Seq<char>)
    requires
        channel_from_raw(s) is Some,
    ensures
        hex_text(channel_code(channel_from_raw(s).unwrap())) == hex_text(text_bytes(s)),
{
    let ch = lemma_from_raw_code(s);
    let t = upper(s);
    let c = channel_from_raw(s).unwrap();
    let u = text_bytes(t);
    let b = text_bytes(s);
    assert forall|i: int| 0 <= i < b.len() implies #[trigger] u[i] == crate::index::upper_byte(b[i]) by {
        assert(crate::index::base62_char(s[i]) || crate::index::base36_char(t[i]));
    }
    assert(b.len() == u.len());
    if b.len() == 1 {
        lemma_hex_upper(b[0]);
    } else {
        lemma_hex_upper(b[0]);
        lemma_hex_upper(b[1]);
    }
    if is_named(c) {
        assert(channel_code(c) == padded(u));
    } else {
        assert(channel_code(c) == u);
    }
}

} // verus!
