//! The version-0 bmson layout, and the conversions of its notes, bar lines
//! and channels to and from the current layout.

use vstd::prelude::*;

use crate::bmson::{ln_mode_of_type, ln_mode_type_hint, ln_type_of_mode, LnMode, LnType, NoteEvent};

verus! {

/// A version-0 bar line; `k` exists only in this version.
#[derive(Clone, Debug, PartialEq, Eq)]
pub struct BarLine {
    /// Position in pulses.
    pub y: u64,
    /// Bar-line kind.
    pub k: Option<u64>,
}

/// A version-0 sound channel.
#[derive(Clone, Debug, PartialEq, Eq)]
pub struct SoundChannel<C = String> {
    /// The sound file.
    pub name: C,
    /// The notes that play it.
    pub notes: Vec<NoteEvent>,
}

/// An error converting between version 0 and the current layout.
#[derive(Clone, Debug, PartialEq, Eq)]
pub struct TryFromV0Error {
    /// What went wrong.
    pub message: String,
}

impl TryFromV0Error {
    /// An error with the given message.
    pub fn new(message: String) -> (r: Self)
        ensures
            r.message@ == message@,
    {
        TryFromV0Error { message }
    }

    /// The message of this error: `v0 conversion error: ` and the message.
    pub fn to_string(&self) -> (r: String)
        ensures
            r@ == "v0 conversion error: "@ + self.message@,
    {
        let mut s = "v0 conversion error: ".to_owned();
        s.append(self.message.as_str());
        s
    }
}

/// Converts version-0 bar lines to current ones, dropping `k`.
pub fn convert_bar_lines(lines: Vec<BarLine>) -> (r: Vec<crate::bmson::BarLine>)
    ensures
        r@.len() == lines@.len(),
        forall|i: int| 0 <= i < r@.len() ==> (#[trigger] r@[i]).y == lines@[i].y,
{
    let mut out: Vec<crate::bmson::BarLine> = Vec::new();
    let mut i: usize = 0;
    while i < lines.len()
        invariant
            i <= lines@.len(),
            out@.len() == i,
            forall|j: int| 0 <= j < i ==> (#[trigger] out@[j]).y == lines@[j].y,
        decreases lines.len() - i,
    {
        out.push(crate::bmson::BarLine { y: lines[i].y });
        i = i + 1;
    }
    out
}

/// Converts current bar lines to version 0, with kind `0`.
pub fn bar_lines_to_v0(lines: Vec<crate::bmson::BarLine>) -> (r: Vec<BarLine>)
    ensures
        r@.len() == lines@.len(),
        forall|i: int|
            0 <= i < r@.len() ==> (#[trigger] r@[i]).y == lines@[i].y && r@[i].k == Some(0u64),
{
    let mut out: Vec<BarLine> = Vec::new();
    let mut i: usize = 0;
    while i < lines.len()
        invariant
            i <= lines@.len(),
            out@.len() == i,
            forall|j: int|
                0 <= j < i ==> (#[trigger] out@[j]).y == lines@[j].y && out@[j].k == Some(0u64),
        decreases lines.len() - i,
    {
        out.push(BarLine { y: lines[i].y, k: Some(0) });
        i = i + 1;
    }
    out
}

/// Converting bar lines to version 0 and back keeps every position.
pub proof fn lemma_bar_lines_roundtrip(
    lines: Seq<crate::bmson::BarLine>,
    v0: Seq<BarLine>,
    back: Seq<crate::bmson::BarLine>,
)
    requires
        v0.len() == lines.len(),
        forall|i: int| 0 <= i < v0.len() ==> (#[trigger] v0[i]).y == lines[i].y,
        back.len() == v0.len(),
        forall|i: int| 0 <= i < back.len() ==> (#[trigger] back[i]).y == v0[i].y,
    ensures
        back == lines,
{
    assert(back =~= lines);
}

/// `None` for an empty text, the text otherwise.
pub fn some_if_nonempty(s: &str) -> (r: Option<&str>)
    ensures
        s@.len() == 0 ==> r is None,
        s@.len() != 0 ==> r == Some(s),
{
    if s.is_empty() {
        None
    } else {
        Some(s)
    }
}

/// The current `ln_type_hint` of a chart from the version-0 `lnType`: CN
/// gives CN; LN, HCN and no value give the default LN.
pub open spec fn chart_ln_type_of(ln_type: Option<LnMode>) -> LnType {
    match ln_type {
        Some(m) => match ln_mode_type_hint(m) {
            Some(t) => t,
            None => LnType::Ln,
        },
        None => LnType::Ln,
    }
}

/// Computes [`chart_ln_type_of`].
pub fn chart_ln_type_hint(ln_type: Option<LnMode>) -> (r: LnType)
    ensures
        r == chart_ln_type_of(ln_type),
{
    match ln_type {
        Some(m) => match crate::bmson::ln_mode_to_type_hint(m) {
            Some(t) => t,
            None => LnType::Ln,
        },
        None => LnType::Ln,
    }
}

/// A version-0 note in the current layout: an unset `ln_type_hint` takes
/// the kind of the older mode field `t`; all else is kept.
pub open spec fn note_from_v0(n: NoteEvent) -> NoteEvent {
    NoteEvent {
        ln_type_hint: if n.ln_type_hint is None {
            match n.t {
                Some(m) => Some(ln_type_of_mode(m)),
                None => None,
            }
        } else {
            n.ln_type_hint
        },
        ..n
    }
}

/// A current note in the version-0 layout: an unset mode field `t` takes
/// the kind of `ln_type_hint`; all else is kept.
pub open spec fn note_to_v0(n: NoteEvent) -> NoteEvent {
    NoteEvent {
        t: if n.t is None {
            match n.ln_type_hint {
                Some(h) => Some(ln_mode_of_type(h)),
                None => None,
            }
        } else {
            n.t
        },
        ..n
    }
}

fn convert_note_from_v0(n: &NoteEvent) -> (r: NoteEvent)
    ensures
        r == note_from_v0(*n),
{
    let hint = if n.ln_type_hint.is_none() {
        match n.t {
            Some(LnMode::Ln) => Some(LnType::Ln),
            Some(LnMode::Cn) => Some(LnType::Cn),
            Some(LnMode::Hcn) => Some(LnType::Hcn),
            None => None,
        }
    } else {
        n.ln_type_hint
    };
    NoteEvent {
        x: n.x,
        y: n.y,
        l: n.l,
        c: n.c,
        t: n.t,
        up: n.up,
        ln_type_hint: hint,
        ln_judge_hint: n.ln_judge_hint,
        ln_life_hint: n.ln_life_hint,
        vol: n.vol,
        pan: n.pan,
    }
}

fn convert_note_to_v0(n: &NoteEvent) -> (r: NoteEvent)
    ensures
        r == note_to_v0(*n),
{
    let t = if n.t.is_none() {
        match n.ln_type_hint {
            Some(LnType::Ln) => Some(LnMode::Ln),
            Some(LnType::Cn) => Some(LnMode::Cn),
            Some(LnType::Hcn) => Some(LnMode::Hcn),
            None => None,
        }
    } else {
        n.t
    };
    NoteEvent {
        x: n.x,
        y: n.y,
        l: n.l,
        c: n.c,
        t,
        up: n.up,
        ln_type_hint: n.ln_type_hint,
        ln_judge_hint: n.ln_judge_hint,
        ln_life_hint: n.ln_life_hint,
        vol: n.vol,
        pan: n.pan,
    }
}

/// Converts version-0 notes to the current layout (see [`note_from_v0`]).
pub fn notes_from_v0(notes: &Vec<NoteEvent>) -> (r: Vec<NoteEvent>)
    ensures
        r@ == notes@.map_values(|n: NoteEvent| note_from_v0(n)),
{
    let mut out: Vec<NoteEvent> = Vec::new();
    let mut i: usize = 0;
    while i < notes.len()
        invariant
            i <= notes@.len(),
            out@ == notes@.take(i as int).map_values(|n: NoteEvent| note_from_v0(n)),
        decreases notes.len() - i,
    {
        out.push(convert_note_from_v0(&notes[i]));
        i = i + 1;
        assert(out@ =~= notes@.take(i as int).map_values(|n: NoteEvent| note_from_v0(n)));
    }
    assert(notes@.take(i as int) =~= notes@);
    out
}

/// Converts current notes to the version-0 layout (see [`note_to_v0`]).
pub fn notes_to_v0(notes: &Vec<NoteEvent>) -> (r: Vec<NoteEvent>)
    ensures
        r@ == notes@.map_values(|n: NoteEvent| note_to_v0(n)),
{
    let mut out: Vec<NoteEvent> = Vec::new();
    let mut i: usize = 0;
    while i < notes.len()
        invariant
            i <= notes@.len(),
            out@ == notes@.take(i as int).map_values(|n: NoteEvent| note_to_v0(n)),
        decreases notes.len() - i,
    {
        out.push(convert_note_to_v0(&notes[i]));
        i = i + 1;
        assert(out@ =~= notes@.take(i as int).map_values(|n: NoteEvent| note_to_v0(n)));
    }
    assert(notes@.take(i as int) =~= notes@);
    out
}

/// Converts version-0 sound channels to the current layout: the same files,
/// their notes converted.
pub fn sound_channels_from_v0(chs: Vec<SoundChannel<String>>) -> (r: Vec<crate::bmson::SoundChannel<String>>)
    ensures
        r@.len() == chs@.len(),
        forall|i: int|
            0 <= i < r@.len() ==> (#[trigger] r@[i]).name@ == chs@[i].name@ && r@[i].note_events@
                == chs@[i].notes@.map_values(|n: NoteEvent| note_from_v0(n)),
{
    let mut out: Vec<crate::bmson::SoundChannel<String>> = Vec::new();
    let mut i: usize = 0;
    while i < chs.len()
        invariant
            i <= chs@.len(),
            out@.len() == i,
            forall|j: int|
                0 <= j < i ==> (#[trigger] out@[j]).name@ == chs@[j].name@ && out@[j].note_events@
                    == chs@[j].notes@.map_values(|n: NoteEvent| note_from_v0(n)),
        decreases chs.len() - i,
    {
        let ch = &chs[i];
        let name = ch.name.clone();
        let note_events = notes_from_v0(&ch.notes);
        out.push(crate::bmson::SoundChannel { name, note_events });
        i = i + 1;
    }
    out
}

/// Converts current sound channels to version 0: the same files, their
/// notes converted.
pub fn sound_channels_to_v0(chs: Vec<crate::bmson::SoundChannel<String>>) -> (r: Vec<SoundChannel<String>>)
    ensures
        r@.len() == chs@.len(),
        forall|i: int|
            0 <= i < r@.len() ==> (#[trigger] r@[i]).name@ == chs@[i].name@ && r@[i].notes@
                == chs@[i].note_events@.map_values(|n: NoteEvent| note_to_v0(n)),
{
    let mut out: Vec<SoundChannel<String>> = Vec::new();
    let mut i: usize = 0;
    while i < chs.len()
        invariant
            i <= chs@.len(),
            out@.len() == i,
            forall|j: int|
                0 <= j < i ==> (#[trigger] out@[j]).name@ == chs@[j].name@ && out@[j].notes@
                    == chs@[j].note_events@.map_values(|n: NoteEvent| note_to_v0(n)),
        decreases chs.len() - i,
    {
        let ch = &chs[i];
        let name = ch.name.clone();
        let notes = notes_to_v0(&ch.note_events);
        out.push(SoundChannel { name, notes });
        i = i + 1;
    }
    out
}

/// A set older mode field survives a trip to the current layout and back,
/// a set long-note hint survives a trip to version 0 and back, and the
/// position and length of a note are never touched.
pub proof fn lemma_note_conversions_keep_kinds(n: NoteEvent)
    ensures
        n.t is Some ==> note_to_v0(note_from_v0(n)).t == n.t,
        n.ln_type_hint is Some ==> note_from_v0(note_to_v0(n)).ln_type_hint == n.ln_type_hint,
        note_to_v0(note_from_v0(n)).x == n.x && note_to_v0(note_from_v0(n)).y == n.y
            && note_to_v0(note_from_v0(n)).l == n.l,
{
}

} // verus!
