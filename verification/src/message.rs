//! Channel message lines (`#ADDR:body`).
//!
//! `ADDR` is a measure number (decimal digits, 0-based) followed by the
//! channel: the last one or two Base62 characters of the address.  In
//! `#00111:...` the measure is `001` and the channel `11`.  `body` is the raw
//! value text; its two-character object ids are read downstream.

use vstd::prelude::*;

use crate::channel::{channel_index_of, channel_of_text, classify_channel, BmsChannel};
use crate::error::{outcome_view, BmsTokenizeError};
use crate::index::{base62_char, ChannelIndex};
use crate::text::{first_index, is_digit, lemma_first_index, upper};

verus! {

/// A channel data line (`#ADDR:body`) of a BMS file.
#[derive(Debug, Clone, PartialEq, Eq)]
pub struct BmsMessage<C = String> {
    /// The raw address text (before `:`).
    pub addr: C,
    /// The raw body text (after `:`).
    pub body: C,
    /// The 0-based measure number, read from the digits of the address that
    /// precede the channel.
    pub track: u16,
    /// The channel: the last 1–2 Base62 characters of the address.
    pub channel: BmsChannel,
}

impl View for BmsMessage<String> {
    type V = BmsMessage<Seq<char>>;

    open spec fn view(&self) -> BmsMessage<Seq<char>> {
        BmsMessage { addr: self.addr@, body: self.body@, track: self.track, channel: self.channel }
    }
}

impl<C> BmsMessage<C> {
    /// The measure number.
    pub fn track(&self) -> (r: u16)
        ensures
            r == self.track,
    {
        self.track
    }

    /// The channel.
    pub fn channel(&self) -> (r: BmsChannel)
        ensures
            r == self.channel,
    {
        self.channel
    }
}

/// The value of a digit character.
pub open spec fn digit_of(c: char) -> int {
    (c as u32) - ('0' as u32)
}

/// The measure number read from `s`: its decimal digits taken left to
/// right, other characters skipped, saturating at `u16::MAX`.
pub open spec fn track_of(s: Seq<char>) -> int
    decreases s.len(),
{
    if s.len() == 0 {
        0
    } else {
        let acc = track_of(s.drop_last());
        if is_digit(s.last()) {
            let v = acc * 10 + digit_of(s.last());
            if v > 65535 {
                65535
            } else {
                v
            }
        } else {
            acc
        }
    }
}

/// The text after the leading `#`.
pub open spec fn msg_rest(l: Seq<char>) -> Seq<char> {
    l.drop_first()
}

/// The address: `rest` up to its first `:`.
pub open spec fn msg_addr(l: Seq<char>) -> Seq<char> {
    msg_rest(l).take(first_index(msg_rest(l), ':'))
}

/// The body: `rest` after its first `:`.
pub open spec fn msg_body(l: Seq<char>) -> Seq<char> {
    msg_rest(l).skip(first_index(msg_rest(l), ':') + 1)
}

/// Whether the line has the shape of a channel message: `#`, at least three
/// characters, a `:`, and an address that starts with a digit.
pub open spec fn is_message_shape(l: Seq<char>) -> bool {
    &&& l.len() >= 3
    &&& l[0] == '#'
    &&& first_index(msg_rest(l), ':') >= 0
    &&& msg_addr(l).len() > 0
    &&& is_digit(msg_addr(l)[0])
}

/// How many characters at the end of `addr` form the channel: two when the
/// last two are Base62, else one.
pub open spec fn channel_len(addr: Seq<char>) -> int {
    if addr.len() >= 2 && base62_char(addr[addr.len() - 2]) {
        2
    } else {
        1
    }
}

proof fn lemma_upper_base36(c: char)
    requires
        base62_char(c),
    ensures
        crate::index::base36_char(crate::text::to_upper(c)),
{
}

/// What a line reads as: `Ok(None)` when it is not shaped like a channel
/// message, `InvalidChannel` with the address when the address does not end
/// in a Base62 character, else the message, whose channel is the
/// upper-cased last one or two Base62 characters of the address and whose
/// measure is read from the digits before them.
pub open spec fn message_line_of(l: Seq<char>) -> Result<
    Option<BmsMessage<Seq<char>>>,
    BmsTokenizeError<Seq<char>>,
> {
    let a = msg_addr(l);
    let k = a.len() - channel_len(a);
    if !is_message_shape(l) {
        Ok(None)
    } else if !base62_char(a.last()) {
        Err(BmsTokenizeError::InvalidChannel { value: a })
    } else {
        Ok(
            Some(
                BmsMessage {
                    addr: a,
                    body: msg_body(l),
                    track: track_of(a.take(k)) as u16,
                    channel: channel_of_text(upper(a.skip(k))),
                },
            ),
        )
    }
}

/// Reads one line as a channel message.
///
/// `Ok(None)` when the line is not shaped like one (a header, a comment, an
/// empty line); `Err(InvalidChannel)` with the address when it is, but the
/// address does not end in a Base62 character.
pub fn parse_message_line(line: &str) -> (r: Result<Option<BmsMessage<String>>, BmsTokenizeError<String>>)
    ensures
        outcome_view(r) == message_line_of(line@),
{
    let l = crate::text::chars_of(line);
    message_from_chars(&l)
}

/// Reads a line held as characters as a channel message (see
/// [`parse_message_line`]).
pub fn message_from_chars(l: &[char]) -> (r: Result<Option<BmsMessage<String>>, BmsTokenizeError<String>>)
    ensures
        outcome_view(r) == message_line_of(l@),
{
    let n = l.len();
    if n < 3 || l[0] != '#' {
        return Ok(None);
    }
    let ghost rest = msg_rest(l@);
    let colon = crate::text::find_char(l, 1, n, ':');
    proof {
        lemma_first_index(rest, ':');
        assert(l@.subrange(1, n as int) =~= rest);
    }
    if colon == n {
        return Ok(None);
    }
    if colon == 1 || !crate::text::is_digit_char(l[1]) {
        proof {
            assert(msg_addr(l@) =~= l@.subrange(1, colon as int));
        }
        return Ok(None);
    }
    let ghost addr = msg_addr(l@);
    proof {
        assert(addr =~= l@.subrange(1, colon as int));
        assert(msg_body(l@) =~= l@.subrange(colon + 1, n as int));
    }
    let last = l[colon - 1];
    if !crate::index::is_base62_char(last) {
        let value = crate::text::string_from_range(l, 1, colon);
        return Err(BmsTokenizeError::InvalidChannel { value });
    }
    let clen: usize = if colon - 1 >= 2 && crate::index::is_base62_char(l[colon - 2]) {
        2
    } else {
        1
    };
    let cstart = colon - clen;
    let up = crate::text::upper_range(l, cstart, colon);
    proof {
        assert(l@.subrange(cstart as int, colon as int) =~= addr.skip(addr.len() - clen));
        lemma_upper_base36(l@[colon - 1]);
        if clen == 2 {
            lemma_upper_base36(l@[colon - 2]);
        }
    }
    let us = crate::text::string_from(&up);
    let ch = match ChannelIndex::try_from(us.as_str()) {
        Ok(ch) => ch,
        Err(_) => {
            let value = crate::text::string_from_range(l, 1, colon);
            return Err(BmsTokenizeError::InvalidChannel { value });
        },
    };
    proof {
        ChannelIndex::lemma_view_injective(ch, channel_index_of(us@));
    }
    let channel = classify_channel(ch);
    let track = track_value(l, 1, cstart);
    proof {
        assert(l@.subrange(1, cstart as int) =~= addr.take(addr.len() - clen));
    }
    let addr_s = crate::text::string_from_range(l, 1, colon);
    let body_s = crate::text::string_from_range(l, colon + 1, n);
    Ok(Some(BmsMessage { addr: addr_s, body: body_s, track, channel }))
}

/// The measure number of `cs[from..to]` (see [`track_of`]).
fn track_value(cs: &[char], from: usize, to: usize) -> (r: u16)
    requires
        from <= to <= cs@.len(),
    ensures
        r == track_of(cs@.subrange(from as int, to as int)),
{
    let mut acc: u16 = 0;
    let mut i = from;
    while i < to
        invariant
            from <= i <= to <= cs@.len(),
            acc == track_of(cs@.subrange(from as int, i as int)),
        decreases to - i,
    {
        let c = cs[i];
        proof {
            let s = cs@.subrange(from as int, i as int + 1);
            assert(s.drop_last() =~= cs@.subrange(from as int, i as int));
            assert(s.last() == c);
        }
        if crate::text::is_digit_char(c) {
            let d: u32 = (c as u32) - ('0' as u32);
            let v: u32 = (acc as u32) * 10 + d;
            acc = if v > 65535 {
                65535
            } else {
                v as u16
            };
        }
        i = i + 1;
    }
    acc
}

// ---------------------------------------------------------------------------
// Laws
// ---------------------------------------------------------------------------

/// The decimal digits of `s`, in order.
pub open spec fn digits_in(s: Seq<char>) -> Seq<char>
    decreases s.len(),
{
    if s.len() == 0 {
        Seq::empty()
    } else if is_digit(s.last()) {
        digits_in(s.drop_last()).push(s.last())
    } else {
        digits_in(s.drop_last())
    }
}

/// The measure read from `s` is the decimal value of its digits, read in
/// order (0 when there are none), capped at `u16::MAX`.
pub proof fn lemma_track_of_digits(s: Seq<char>)
    ensures
        track_of(s) == if crate::text::digits_value(digits_in(s)) > 65535 {
            65535
        } else {
            crate::text::digits_value(digits_in(s)) as int
        },
    decreases s.len(),
{
    if s.len() > 0 {
        lemma_track_of_digits(s.drop_last());
        if is_digit(s.last()) {
            let d = digits_in(s);
            assert(d.drop_last() =~= digits_in(s.drop_last()));
            assert(d.last() == s.last());
            assert(crate::text::digits_value(d) == crate::text::digits_value(d.drop_last()) * 10
                + crate::text::digit_value(d.last()));
        }
    }
}

/// A message rebuilds its line: the line is `#`, the address, `:` and the
/// body; the address holds no `:`; the channel is what the address's last
/// one or two characters denote (two when the last two are Base62), taken
/// as a raw channel text; and the measure is the decimal value of the
/// digits before them, capped at `u16::MAX`.
pub proof fn lemma_message_line_rebuilds(l: Seq<char>)
    requires
        message_line_of(l) matches Ok(Some(_)),
    ensures
        message_line_of(l) matches Ok(Some(m)) && {
            let k = m.addr.len() - channel_len(m.addr);
            &&& l == seq!['#'] + m.addr + seq![':'] + m.body
            &&& crate::text::lacks(m.addr, ':')
            &&& Some(m.channel) == crate::channel::channel_from_raw(m.addr.skip(k))
            &&& m.track == (if crate::text::digits_value(digits_in(m.addr.take(k))) > 65535 {
                65535
            } else {
                crate::text::digits_value(digits_in(m.addr.take(k))) as int
            })
        },
{
    let rest = msg_rest(l);
    let fi = first_index(rest, ':');
    lemma_first_index(rest, ':');
    let a = msg_addr(l);
    let k = a.len() - channel_len(a);
    assert(l =~= seq!['#'] + a + seq![':'] + msg_body(l)) by {
        assert(rest =~= a + seq![':'] + msg_body(l));
        assert(l =~= seq![l[0]] + rest);
    }
    assert(crate::text::lacks(a, ':')) by {
        assert forall|i: int| 0 <= i < a.len() implies #[trigger] a[i] != ':' by {
            assert(a[i] == rest[i]);
        }
    }
    let t = a.skip(k);
    assert(crate::index::channel_text_ok(upper(t))) by {
        lemma_upper_base36(a.last());
        assert(t.last() == a.last());
        if channel_len(a) == 2 {
            lemma_upper_base36(a[a.len() - 2]);
            assert(t[0] == a[a.len() - 2]);
        }
    }
    lemma_track_of_digits(a.take(k));
}

} // verus!
