//! Turning a bmson chart into timed events: lane layouts, playable pulses,
//! audio slicing, note and background-music events, mine and key-sound
//! channels, tempo, stop and scroll changes, BGA events and bar lines.
//!
//! Times are integers (nanoseconds); the tempo-dependent time of each pulse
//! is an input.  Tempos, scroll rates and mine damages, which are
//! floating-point numbers, are carried through as the bits of their values.

use vstd::prelude::*;

use crate::bmson::{
    BGAEvent, BarLine, BpmEvent, KeyChannel, KeyNote, LnJudge, LnLife, LnMode, LnType, MineChannel, MineNote,
    ModeHint, NoteEvent, ScrollEvent, SoundChannel, StopEvent,
};

verus! {

// ---------------------------------------------------------------------------
// Lanes and layouts
// ---------------------------------------------------------------------------

/// The player side of a note.
#[derive(Clone, Copy, Debug, PartialEq, Eq, Structural)]
pub enum NoteSide {
    /// Player 1.
    P1,
    /// Player 2.
    P2,
}

/// A lane of one side: a numbered key or turntable, numbered from 1.
#[derive(Clone, Copy, Debug, PartialEq, Eq, Structural)]
pub enum Lane {
    /// Key `n`.
    Key(u8),
    /// Turntable `n`.
    Scratch(u8),
}

/// `Some(n)` for a non-zero number: lanes are numbered from 1.
pub fn nz(n: u8) -> (r: Option<u8>)
    ensures
        r == if n == 0 {
            None::<u8>
        } else {
            Some(n)
        },
{
    if n == 0 {
        None
    } else {
        Some(n)
    }
}

/// The beat layout (`beat-5k` … `beat-14k`, and the `dj-*` hints): per
/// side `KEY1-5 | SC | KEY6-7`.  Lanes 1–7 are player 1's keys, 8 its
/// turntable, 9–15 player 2's keys, 16 its turntable.
pub open spec fn beat_lane(x: u64) -> Option<(NoteSide, Lane)> {
    if 1 <= x <= 7 {
        Some((NoteSide::P1, Lane::Key(x as u8)))
    } else if x == 8 {
        Some((NoteSide::P1, Lane::Scratch(1)))
    } else if 9 <= x <= 15 {
        Some((NoteSide::P2, Lane::Key((x - 8) as u8)))
    } else if x == 16 {
        Some((NoteSide::P2, Lane::Scratch(1)))
    } else {
        None
    }
}

/// The nine-key layout (`popn-5k`, `popn-9k`): lanes 1–9 are player 1's
/// keys.
pub open spec fn pms_lane(x: u64) -> Option<(NoteSide, Lane)> {
    if 1 <= x <= 9 {
        Some((NoteSide::P1, Lane::Key(x as u8)))
    } else {
        None
    }
}

/// The generic layout of `keys` keys: lanes `1..=keys` are player 1's keys;
/// a lane above 255 has no key.
pub open spec fn generic_lane(keys: u16, x: u64) -> Option<(NoteSide, Lane)> {
    if 1 <= x <= keys && x <= 255 {
        Some((NoteSide::P1, Lane::Key(x as u8)))
    } else {
        None
    }
}

/// The beat layout.
#[derive(Clone, Copy, Debug, Default, PartialEq, Eq)]
pub struct Beat;

impl Beat {
    /// The position of lane `x` (see [`beat_lane`]).
    pub fn from_bmson(x: u64) -> (r: Option<(NoteSide, Lane)>)
        ensures
            r == beat_lane(x),
    {
        if 1 <= x && x <= 7 {
            Some((NoteSide::P1, Lane::Key(x as u8)))
        } else if x == 8 {
            Some((NoteSide::P1, Lane::Scratch(1)))
        } else if 9 <= x && x <= 15 {
            Some((NoteSide::P2, Lane::Key((x - 8) as u8)))
        } else if x == 16 {
            Some((NoteSide::P2, Lane::Scratch(1)))
        } else {
            None
        }
    }
}

/// The nine-key layout.
#[derive(Clone, Copy, Debug, Default, PartialEq, Eq)]
pub struct Pms;

impl Pms {
    /// The position of lane `x` (see [`pms_lane`]).
    pub fn from_bmson(x: u64) -> (r: Option<(NoteSide, Lane)>)
        ensures
            r == pms_lane(x),
    {
        if 1 <= x && x <= 9 {
            Some((NoteSide::P1, Lane::Key(x as u8)))
        } else {
            None
        }
    }
}

/// The generic layout of `keys` keys.
#[derive(Clone, Copy, Debug, PartialEq, Eq)]
pub struct GenericLayout {
    /// The number of keys, all on player 1's side.
    pub keys: u16,
}

impl GenericLayout {
    /// The position of lane `x` (see [`generic_lane`]).
    pub fn map_x(&self, x: u64) -> (r: Option<(NoteSide, Lane)>)
        ensures
            r == generic_lane(self.keys, x),
    {
        if !(1 <= x && x <= self.keys as u64) {
            return None;
        }
        if x > 255 {
            return None;
        }
        Some((NoteSide::P1, Lane::Key(x as u8)))
    }
}

/// The lane layout a chart is read with.
#[derive(Clone, Copy, Debug, PartialEq, Eq)]
pub enum Layout {
    /// [`Beat`].
    Beat,
    /// [`Pms`].
    Pms,
    /// [`GenericLayout`].
    Generic(GenericLayout),
}

/// The position of lane `x` in a layout.
pub open spec fn layout_lane(layout: Layout, x: u64) -> Option<(NoteSide, Lane)> {
    match layout {
        Layout::Beat => beat_lane(x),
        Layout::Pms => pms_lane(x),
        Layout::Generic(g) => generic_lane(g.keys, x),
    }
}

impl Layout {
    /// The position of lane `x` (see [`layout_lane`]).
    pub fn map_x(&self, x: u64) -> (r: Option<(NoteSide, Lane)>)
        ensures
            r == layout_lane(*self, x),
    {
        match self {
            Layout::Beat => Beat::from_bmson(x),
            Layout::Pms => Pms::from_bmson(x),
            Layout::Generic(g) => g.map_x(x),
        }
    }

    /// The layout a mode hint asks for: the nine-key layout for `popn-*`,
    /// the generic layout for `generic-{n}keys` (no keys when `n` does not
    /// fit a `u16`), the beat layout otherwise.
    pub fn for_mode(mode: &ModeHint<String>) -> (r: Layout)
        ensures
            r == match mode@ {
                ModeHint::Popn5k => Layout::Pms,
                ModeHint::Popn9k => Layout::Pms,
                ModeHint::Generic(n) => Layout::Generic(
                    GenericLayout {
                        keys: if n <= 65535 {
                            n as u16
                        } else {
                            0
                        },
                    },
                ),
                _ => Layout::Beat,
            },
    {
        match mode {
            ModeHint::Popn5k => Layout::Pms,
            ModeHint::Popn9k => Layout::Pms,
            ModeHint::Generic(n) => {
                let keys: u16 = if *n <= 65535 {
                    *n as u16
                } else {
                    0
                };
                Layout::Generic(GenericLayout { keys })
            },
            _ => Layout::Beat,
        }
    }
}

// ---------------------------------------------------------------------------
// Long-note hints of a chart
// ---------------------------------------------------------------------------

/// The chart's long-note kind.
#[derive(Clone, Copy, Debug, PartialEq, Eq, Structural)]
pub enum LnTypeHint {
    /// Long note.
    Ln,
    /// Charge note.
    Cn,
}

/// The chart's long-note judging.
#[derive(Clone, Copy, Debug, PartialEq, Eq, Structural)]
pub enum LnJudgeHint {
    /// Normal.
    Normal,
    /// By ticks.
    Ticks,
}

/// The chart's long-note gauge effect.
#[derive(Clone, Copy, Debug, PartialEq, Eq, Structural)]
pub enum LnLifeHint {
    /// Normal.
    Normal,
    /// By ticks.
    Ticks,
}

/// The number that an older long-note mode is kept as: 2 for CN, 3 for
/// HCN, 1 otherwise.
pub fn ln_mode_to_u64(m: LnMode) -> (r: u64)
    ensures
        r == crate::bmson::ln_mode_number(m),
{
    match m {
        LnMode::Cn => 2,
        LnMode::Hcn => 3,
        LnMode::Ln => 1,
    }
}

/// The chart kind of a long-note type: CN stays CN, LN and HCN become LN.
pub open spec fn type_hint_of(t: LnType) -> LnTypeHint {
    match t {
        LnType::Cn => LnTypeHint::Cn,
        _ => LnTypeHint::Ln,
    }
}

/// Computes [`type_hint_of`].
pub fn ln_type_to_hint(t: LnType) -> (r: LnTypeHint)
    ensures
        r == type_hint_of(t),
{
    match t {
        LnType::Cn => LnTypeHint::Cn,
        _ => LnTypeHint::Ln,
    }
}

/// The chart judging of a long-note judging hint.
pub fn ln_judge_to_hint(j: LnJudge) -> (r: LnJudgeHint)
    ensures
        r == (if j == LnJudge::Ticks {
            LnJudgeHint::Ticks
        } else {
            LnJudgeHint::Normal
        }),
{
    match j {
        LnJudge::Ticks => LnJudgeHint::Ticks,
        _ => LnJudgeHint::Normal,
    }
}

/// The chart gauge effect of a long-note life hint.
pub fn ln_life_to_hint(l: LnLife) -> (r: LnLifeHint)
    ensures
        r == (if l == LnLife::Ticks {
            LnLifeHint::Ticks
        } else {
            LnLifeHint::Normal
        }),
{
    match l {
        LnLife::Ticks => LnLifeHint::Ticks,
        _ => LnLifeHint::Normal,
    }
}

/// The bmson extras of a chart note.
#[derive(Clone, Copy, Debug, Default, PartialEq, Eq)]
pub struct BmsonNoteExt {
    /// Volume adjustment.
    pub vol: Option<i8>,
    /// Pan adjustment.
    pub pan: Option<i8>,
    /// Whether the key-up sound plays.
    pub release_sound: Option<bool>,
    /// The older numeric long-note mode.
    pub beatoraja_ln_mode: Option<u64>,
    /// The long-note kind.
    pub ln_type_hint: Option<LnTypeHint>,
    /// The long-note judging.
    pub ln_judge_hint: Option<LnJudgeHint>,
    /// The long-note gauge effect.
    pub ln_life_hint: Option<LnLifeHint>,
}

/// The extras that a bmson note carries into the chart.
pub open spec fn note_ext_of(n: NoteEvent) -> BmsonNoteExt {
    BmsonNoteExt {
        vol: n.vol,
        pan: n.pan,
        release_sound: n.up,
        beatoraja_ln_mode: match n.t {
            Some(m) => Some(crate::bmson::ln_mode_number(m)),
            None => None,
        },
        ln_type_hint: match n.ln_type_hint {
            Some(t) => Some(type_hint_of(t)),
            None => None,
        },
        ln_judge_hint: match n.ln_judge_hint {
            Some(j) => Some(
                if j == LnJudge::Ticks {
                    LnJudgeHint::Ticks
                } else {
                    LnJudgeHint::Normal
                },
            ),
            None => None,
        },
        ln_life_hint: match n.ln_life_hint {
            Some(l) => Some(
                if l == LnLife::Ticks {
                    LnLifeHint::Ticks
                } else {
                    LnLifeHint::Normal
                },
            ),
            None => None,
        },
    }
}

/// Builds a note's extras (see [`note_ext_of`]).
pub fn build_note_ext(n: &NoteEvent) -> (r: BmsonNoteExt)
    ensures
        r == note_ext_of(*n),
{
    BmsonNoteExt {
        vol: n.vol,
        pan: n.pan,
        release_sound: n.up,
        beatoraja_ln_mode: match n.t {
            Some(m) => Some(ln_mode_to_u64(m)),
            None => None,
        },
        ln_type_hint: match n.ln_type_hint {
            Some(t) => Some(ln_type_to_hint(t)),
            None => None,
        },
        ln_judge_hint: match n.ln_judge_hint {
            Some(j) => Some(ln_judge_to_hint(j)),
            None => None,
        },
        ln_life_hint: match n.ln_life_hint {
            Some(l) => Some(ln_life_to_hint(l)),
            None => None,
        },
    }
}

// ---------------------------------------------------------------------------
// Pulse sets
// ---------------------------------------------------------------------------

/// Whether `v` is strictly increasing.
pub open spec fn strictly_sorted(v: Seq<u64>) -> bool {
    forall|i: int, j: int| 0 <= i < j < v.len() ==> v[i] < v[j]
}

/// Inserts `y` into a strictly increasing vector, keeping it so.
fn insert_sorted(v: &mut Vec<u64>, y: u64)
    requires
        strictly_sorted(old(v)@),
    ensures
        strictly_sorted(final(v)@),
        final(v)@.to_set() == old(v)@.to_set().insert(y),
        final(v)@.len() <= old(v)@.len() + 1,
{
    let n = v.len();
    let mut i: usize = 0;
    while i < n && v[i] < y
        invariant
            i <= n == v@.len(),
            v@ == old(v)@,
            forall|j: int| 0 <= j < i ==> v@[j] < y,
        decreases n - i,
    {
        i = i + 1;
    }
    if i < n && v[i] == y {
        assert(v@.to_set() =~= old(v)@.to_set().insert(y)) by {
            assert(v@.contains(y));
        }
        return ;
    }
    let ghost before = v@;
    v.insert(i, y);
    proof {
        assert forall|a: int, b: int| 0 <= a < b < v@.len() implies v@[a] < v@[b] by {
            if b < i {
            } else if a < i && b == i {
            } else if a < i {
                assert(v@[b] == before[b - 1]);
                assert(before[a] < before[b - 1] || a == b - 1);
            } else if a == i {
                assert(v@[b] == before[b - 1]);
                assert(before[i as int] > y);
                if b - 1 > i {
                    assert(before[i as int] < before[b - 1]);
                }
            } else {
                assert(v@[a] == before[a - 1]);
                assert(v@[b] == before[b - 1]);
            }
        }
        assert(v@.to_set() =~= before.to_set().insert(y)) by {
            assert forall|z: u64| v@.to_set().contains(z) implies before.to_set().insert(y).contains(z) by {
                let k = choose|k: int| 0 <= k < v@.len() && v@[k] == z;
                if k < i {
                    assert(before[k] == z);
                } else if k > i {
                    assert(before[k - 1] == z);
                }
            }
            assert forall|z: u64| before.to_set().insert(y).contains(z) implies v@.to_set().contains(z) by {
                if z == y {
                    assert(v@[i as int] == y);
                } else {
                    let k = choose|k: int| 0 <= k < before.len() && before[k] == z;
                    if k < i {
                        assert(v@[k] == z);
                    } else {
                        assert(v@[k + 1] == z);
                    }
                }
            }
        }
    }
}

/// The pulses of the notes of `notes` that `keep` selects.
pub open spec fn pulse_set(notes: Seq<NoteEvent>, playable_only: bool) -> Set<u64> {
    Set::new(|y: u64| exists|i: int| 0 <= i < notes.len() && notes[i].y == y && (!playable_only || notes[i].x > 0))
}

/// Adds the pulses of `notes` (of the playable notes only, when asked) to
/// a strictly increasing vector.
fn add_pulses(v: &mut Vec<u64>, notes: &Vec<NoteEvent>, playable_only: bool)
    requires
        strictly_sorted(old(v)@),
    ensures
        strictly_sorted(final(v)@),
        final(v)@.to_set() == old(v)@.to_set() + pulse_set(notes@, playable_only),
        final(v)@.len() <= old(v)@.len() + notes@.len(),
{
    let mut i: usize = 0;
    while i < notes.len()
        invariant
            i <= notes@.len(),
            strictly_sorted(v@),
            v@.to_set() == old(v)@.to_set() + pulse_set(notes@.take(i as int), playable_only),
            v@.len() <= old(v)@.len() + i,
        decreases notes.len() - i,
    {
        let n = &notes[i];
        let ghost prev = v@.to_set();
        if !playable_only || n.x > 0 {
            insert_sorted(v, n.y);
        }
        i = i + 1;
        proof {
            let t = notes@.take(i as int);
            let t0 = notes@.take(i - 1);
            assert forall|y: u64| pulse_set(t, playable_only).contains(y) == (pulse_set(
                t0,
                playable_only,
            ).contains(y) || (y == notes@[i - 1].y && (!playable_only || notes@[i - 1].x > 0))) by {
                if pulse_set(t, playable_only).contains(y) {
                    let k = choose|k: int|
                        0 <= k < t.len() && t[k].y == y && (!playable_only || t[k].x > 0);
                    if k < i - 1 {
                        assert(t0[k] == t[k]);
                    }
                }
                if pulse_set(t0, playable_only).contains(y) {
                    let k = choose|k: int|
                        0 <= k < t0.len() && t0[k].y == y && (!playable_only || t0[k].x > 0);
                    assert(t[k] == t0[k]);
                }
                if y == notes@[i - 1].y && (!playable_only || notes@[i - 1].x > 0) {
                    assert(t[i - 1] == notes@[i - 1]);
                }
            }
            assert(v@.to_set() =~= old(v)@.to_set() + pulse_set(t, playable_only));
        }
    }
    assert(notes@.take(i as int) =~= notes@);
}

/// The pulses of one channel's notes, in increasing order, each once.
pub fn unique_pulses(notes: &Vec<NoteEvent>) -> (r: Vec<u64>)
    ensures
        strictly_sorted(r@),
        r@.to_set() == pulse_set(notes@, false),
        r@.len() <= notes@.len(),
{
    let mut v: Vec<u64> = Vec::new();
    proof {
        assert(v@.to_set() =~= Set::<u64>::empty());
    }
    add_pulses(&mut v, notes, false);
    proof {
        assert(v@.to_set() =~= pulse_set(notes@, false));
    }
    v
}

/// The pulses at which some channel has a playable note (lane above 0), in
/// increasing order, each once.
pub fn collect_playable_pulses(channels: &Vec<SoundChannel<String>>) -> (r: Vec<u64>)
    ensures
        strictly_sorted(r@),
        forall|y: u64|
            r@.contains(y) <==> exists|c: int|
                0 <= c < channels@.len() && #[trigger] pulse_set(channels@[c].note_events@, true).contains(
                    y,
                ),
{
    let mut v: Vec<u64> = Vec::new();
    let mut c: usize = 0;
    while c < channels.len()
        invariant
            c <= channels@.len(),
            strictly_sorted(v@),
            forall|y: u64|
                v@.contains(y) <==> exists|k: int|
                    0 <= k < c && #[trigger] pulse_set(channels@[k].note_events@, true).contains(y),
        decreases channels.len() - c,
    {
        let ghost before = v@;
        add_pulses(&mut v, &channels[c].note_events, true);
        proof {
            assert forall|y: u64| v@.contains(y) <==> exists|k: int|
                0 <= k < c + 1 && #[trigger] pulse_set(channels@[k].note_events@, true).contains(y) by {
                assert(v@.contains(y) == v@.to_set().contains(y));
                assert(before.contains(y) == before.to_set().contains(y));
                if v@.contains(y) && !before.contains(y) {
                    assert(pulse_set(channels@[c as int].note_events@, true).contains(y));
                }
            }
        }
        c = c + 1;
    }
    v
}

/// The position of `y` in `v`, or `-1`.
pub open spec fn index_in(v: Seq<u64>, y: u64) -> int
    decreases v.len(),
{
    if v.len() == 0 {
        -1
    } else if v.last() == y {
        v.len() - 1
    } else {
        index_in(v.drop_last(), y)
    }
}

proof fn lemma_index_in(v: Seq<u64>, y: u64)
    ensures
        -1 <= index_in(v, y) < v.len(),
        index_in(v, y) >= 0 ==> v[index_in(v, y)] == y,
        index_in(v, y) < 0 ==> !v.contains(y),
    decreases v.len(),
{
    if v.len() > 0 && v.last() != y {
        lemma_index_in(v.drop_last(), y);
        if index_in(v, y) < 0 && v.contains(y) {
            let k = choose|k: int| 0 <= k < v.len() && v[k] == y;
            assert(v.drop_last()[k] == y);
        }
    }
}

/// Finds the position of `y` in `v` (see [`index_in`]).
fn position_of(v: &Vec<u64>, y: u64) -> (r: Option<usize>)
    ensures
        match r {
            Some(i) => i as int == index_in(v@, y),
            None => index_in(v@, y) < 0,
        },
{
    let mut i = v.len();
    assert(v@.take(i as int) =~= v@);
    while i > 0
        invariant
            i <= v@.len(),
            index_in(v@, y) == index_in(v@.take(i as int), y),
        decreases i,
    {
        if v[i - 1] == y {
            assert(v@.take(i as int).last() == y);
            return Some(i - 1);
        }
        assert(v@.take(i as int).drop_last() =~= v@.take(i - 1));
        i = i - 1;
    }
    None
}

/// Whether `y` is in the vector.
fn contains_u64(v: &Vec<u64>, y: u64) -> (r: bool)
    ensures
        r == v@.contains(y),
{
    let p = position_of(v, y);
    proof {
        lemma_index_in(v@, y);
    }
    p.is_some()
}

// ---------------------------------------------------------------------------
// Audio slicing
// ---------------------------------------------------------------------------

/// A slice of a sound file: where it starts in the file and how long it
/// plays (to the next slice; the last slice plays to the end).
#[derive(Clone, Debug, PartialEq, Eq)]
pub struct AudioAsset<C = String> {
    /// The sound file.
    pub path: C,
    /// The start offset in the file, in nanoseconds.
    pub start: u64,
    /// How long the slice plays, in nanoseconds; `None` for the last.
    pub duration: Option<u64>,
}

/// Whether the sound restarts at pulse `p`: some note there does not
/// continue the previous sound.
pub open spec fn restarts_at(notes: Seq<NoteEvent>, p: u64) -> bool {
    exists|i: int| 0 <= i < notes.len() && notes[i].y == p && !notes[i].c
}

/// The time of the last restart at or before slice `i` (slice 0 always
/// restarts).
pub open spec fn last_restart_time(notes: Seq<NoteEvent>, pulses: Seq<u64>, times: Seq<u64>, i: int) -> u64
    decreases i,
{
    if i <= 0 {
        times[0]
    } else if restarts_at(notes, pulses[i]) {
        times[i]
    } else {
        last_restart_time(notes, pulses, times, i - 1)
    }
}

/// `a - b`, or 0 when `b` is larger.
pub open spec fn sat_sub(a: u64, b: u64) -> u64 {
    if a >= b {
        (a - b) as u64
    } else {
        0
    }
}

/// The slice for pulse `i`: a restart starts at 0, a continuation at its
/// time after the last restart; each slice lasts until the next pulse's
/// time.
pub open spec fn slice_of(notes: Seq<NoteEvent>, pulses: Seq<u64>, times: Seq<u64>, i: int) -> (u64, Option<u64>) {
    let start = if i == 0 || restarts_at(notes, pulses[i]) {
        0
    } else {
        sat_sub(times[i], last_restart_time(notes, pulses, times, i - 1))
    };
    let duration = if i + 1 < times.len() {
        Some(sat_sub(times[i + 1], times[i]))
    } else {
        None
    };
    (start, duration)
}

/// A sound channel cut into slices: one slice per distinct note pulse, in
/// increasing order of the pulses.
#[derive(Clone, Debug, PartialEq, Eq)]
pub struct SlicedChannel {
    /// The slices; slice `i` starts at `pulses[i]`.
    pub assets: Vec<AudioAsset<String>>,
    /// The channel's distinct note pulses, in increasing order.
    pub pulses: Vec<u64>,
}

impl SlicedChannel {
    /// The slice that starts at `pulse`, where there is one.
    pub fn pulse_to_index(&self, pulse: u64) -> (r: Option<usize>)
        ensures
            match r {
                Some(i) => i < self.pulses@.len() && self.pulses@[i as int] == pulse,
                None => !self.pulses@.contains(pulse),
            },
    {
        let p = position_of(&self.pulses, pulse);
        proof {
            lemma_index_in(self.pulses@, pulse);
        }
        p
    }
}

fn restarts_at_exec(notes: &Vec<NoteEvent>, p: u64) -> (r: bool)
    ensures
        r == restarts_at(notes@, p),
{
    let mut i: usize = 0;
    while i < notes.len()
        invariant
            i <= notes@.len(),
            forall|j: int| 0 <= j < i ==> !(notes@[j].y == p && !notes@[j].c),
        decreases notes.len() - i,
    {
        if notes[i].y == p && !notes[i].c {
            return true;
        }
        i = i + 1;
    }
    false
}

/// Cuts a sound channel into slices at the given pulses (see
/// [`slice_of`]); `times[i]` is the chart time of the `i`-th pulse.
fn slice_at_pulses(channel: &SoundChannel<String>, pulses: &Vec<u64>, times: &Vec<u64>) -> (r: Vec<AudioAsset<String>>)
    requires
        times@.len() == pulses@.len(),
    ensures
        r@.len() == pulses@.len(),
        forall|i: int|
            0 <= i < r@.len() ==> (#[trigger] r@[i]).path@ == channel.name@ && (r@[i].start, r@[i].duration)
                == slice_of(channel.note_events@, pulses@, times@, i),
{
    let notes = &channel.note_events;
    let n = pulses.len();
    let mut out: Vec<AudioAsset<String>> = Vec::new();
    let mut last: u64 = 0;
    let mut i: usize = 0;
    while i < n
        invariant
            i <= n == pulses@.len() == times@.len(),
            out@.len() == i,
            i > 0 ==> last == last_restart_time(notes@, pulses@, times@, i - 1),
            forall|k: int|
                0 <= k < i ==> (#[trigger] out@[k]).path@ == channel.name@ && (out@[k].start, out@[k].duration)
                    == slice_of(notes@, pulses@, times@, k),
        decreases n - i,
    {
        let t = times[i];
        let restart = i == 0 || restarts_at_exec(notes, pulses[i]);
        let start = if restart {
            0
        } else if t >= last {
            t - last
        } else {
            0
        };
        if restart {
            last = t;
        }
        let duration = if i + 1 < n {
            let next = times[i + 1];
            Some(
                if next >= t {
                    next - t
                } else {
                    0
                },
            )
        } else {
            None
        };
        out.push(AudioAsset { path: channel.name.clone(), start, duration });
        proof {
            assert(last == last_restart_time(notes@, pulses@, times@, i as int));
        }
        i = i + 1;
    }
    out
}

/// Cuts a sound channel into slices, one per distinct note pulse in
/// increasing order (see [`slice_of`]); `times[i]` is the chart time of the
/// channel's `i`-th pulse.
pub fn slice_channel(channel: &SoundChannel<String>, times: &Vec<u64>) -> (r: SlicedChannel)
    requires
        times@.len() == sorted_pulses(channel.note_events@).len(),
    ensures
        r.pulses@ == sorted_pulses(channel.note_events@),
        r.assets@.len() == r.pulses@.len(),
        forall|i: int|
            0 <= i < r.assets@.len() ==> (#[trigger] r.assets@[i]).path@ == channel.name@ && (
            r.assets@[i].start,
            r.assets@[i].duration,
        ) == slice_of(channel.note_events@, sorted_pulses(channel.note_events@), times@, i),
{
    let pulses = unique_pulses(&channel.note_events);
    proof {
        lemma_sorted_unique(pulses@, sorted_pulses(channel.note_events@));
    }
    let assets = slice_at_pulses(channel, &pulses, times);
    SlicedChannel { assets, pulses }
}

// ---------------------------------------------------------------------------
// Events
// ---------------------------------------------------------------------------

/// How a note plays.
#[derive(Clone, Copy, Debug, PartialEq, Eq, Structural)]
pub enum NoteKind {
    /// A normal note.
    Normal,
    /// A long note of the given length in pulses.
    Long {
        /// Length in pulses.
        duration: u64,
    },
    /// An invisible note that only plays a sound.
    Invisible,
    /// A mine; its damage is held as the bits of its floating-point value
    /// (`f64::to_bits`).
    Mine {
        /// The damage's bits.
        damage_bits: u64,
    },
}

/// The layer a BGA event draws on.
#[derive(Clone, Copy, Debug, PartialEq, Eq, Structural)]
pub enum BgaLayer {
    /// The base layer.
    Base,
    /// The overlay layer.
    Layer,
    /// The layer shown on a POOR judgement.
    Poor,
}

/// What happens at an event.
#[derive(Clone, Copy, Debug, PartialEq, Eq)]
pub enum EventKind {
    /// A note on a lane, with the slice it plays.
    Note {
        /// The side.
        side: NoteSide,
        /// The lane.
        lane: Lane,
        /// How it plays.
        kind: NoteKind,
        /// The slice it plays.
        audio_index: Option<u32>,
        /// The bmson extras.
        ext: BmsonNoteExt,
    },
    /// A background sound.
    Bgm {
        /// The slice it plays.
        audio_index: u32,
    },
    /// A bar line.
    Bar,
    /// A tempo change; the tempo is held as the bits of its floating-point
    /// value (`f64::to_bits`).
    Bpm {
        /// The tempo's bits.
        bpm_bits: u64,
    },
    /// A scroll-speed change; the rate is held as the bits of its
    /// floating-point value (`f64::to_bits`).
    Scroll {
        /// The rate's bits.
        rate_bits: u64,
    },
    /// A stop of the given length in pulses.
    Stop {
        /// Length in pulses.
        duration: u64,
    },
    /// A BGA change.
    Bga {
        /// The layer.
        layer: BgaLayer,
        /// The image id.
        resource_id: u32,
    },
}

/// An event at a pulse.
#[derive(Clone, Copy, Debug, PartialEq, Eq)]
pub struct Event {
    /// The pulse.
    pub tick: u64,
    /// What happens.
    pub kind: EventKind,
}

/// The event of a sound note whose slice is `audio`: a background note
/// plays unless a playable note sits at the same pulse; a playable note
/// needs a lane in the layout and is long when its length is not 0.
pub open spec fn note_event(n: NoteEvent, layout: Layout, playable: Seq<u64>, audio: u32) -> Option<Event> {
    if n.x == 0 {
        if playable.contains(n.y) {
            None
        } else {
            Some(Event { tick: n.y, kind: EventKind::Bgm { audio_index: audio } })
        }
    } else {
        match layout_lane(layout, n.x) {
            None => None,
            Some((side, lane)) => Some(
                Event {
                    tick: n.y,
                    kind: EventKind::Note {
                        side,
                        lane,
                        kind: if n.l > 0 {
                            NoteKind::Long { duration: n.l }
                        } else {
                            NoteKind::Normal
                        },
                        audio_index: Some(audio),
                        ext: note_ext_of(n),
                    },
                },
            ),
        }
    }
}

/// The events of a channel's notes, in order; a note's slice is the
/// position of its pulse among the channel's pulses, after the `base`
/// slices of the earlier channels.
pub open spec fn channel_events(
    notes: Seq<NoteEvent>,
    layout: Layout,
    playable: Seq<u64>,
    pulses: Seq<u64>,
    base: int,
) -> Seq<Event>
    decreases notes.len(),
{
    if notes.len() == 0 {
        Seq::empty()
    } else {
        let prev = channel_events(notes.drop_last(), layout, playable, pulses, base);
        let n = notes.last();
        match note_event(n, layout, playable, (index_in(pulses, n.y) + base) as u32) {
            Some(e) => prev.push(e),
            None => prev,
        }
    }
}

/// Builds the events of one channel's notes (see [`channel_events`]).
fn channel_note_events(
    notes: &Vec<NoteEvent>,
    layout: Layout,
    playable: &Vec<u64>,
    pulses: &Vec<u64>,
    base: usize,
    events: &mut Vec<Event>,
)
    requires
        forall|i: int| 0 <= i < notes@.len() ==> pulses@.contains(#[trigger] notes@[i].y),
        base + pulses@.len() <= usize::MAX,
    ensures
        final(events)@ == old(events)@ + channel_events(notes@, layout, playable@, pulses@, base as int),
{
    let mut i: usize = 0;
    while i < notes.len()
        invariant
            i <= notes@.len(),
            forall|k: int| 0 <= k < notes@.len() ==> pulses@.contains(#[trigger] notes@[k].y),
            base + pulses@.len() <= usize::MAX,
            events@ == old(events)@ + channel_events(notes@.take(i as int), layout, playable@, pulses@, base as int),
        decreases notes.len() - i,
    {
        let ne = &notes[i];
        let ghost t = notes@.take(i + 1);
        proof {
            assert(t.drop_last() =~= notes@.take(i as int));
            assert(t.last() == notes@[i as int]);
            lemma_index_in(pulses@, ne.y);
            assert(pulses@.contains(notes@[i as int].y));
        }
        let pos = position_of(pulses, ne.y);
        let idx: usize = match pos {
            Some(p) => p,
            None => 0,
        };
        #[verifier::truncate]
        let audio: u32 = (idx + base) as u32;
        let ghost before = events@;
        if ne.x == 0 {
            if !contains_u64(playable, ne.y) {
                events.push(Event { tick: ne.y, kind: EventKind::Bgm { audio_index: audio } });
            }
        } else {
            match layout.map_x(ne.x) {
                None => {},
                Some((side, lane)) => {
                    let kind = if ne.l > 0 {
                        NoteKind::Long { duration: ne.l }
                    } else {
                        NoteKind::Normal
                    };
                    let ext = build_note_ext(ne);
                    events.push(
                        Event {
                            tick: ne.y,
                            kind: EventKind::Note { side, lane, kind, audio_index: Some(audio), ext },
                        },
                    );
                },
            }
        }
        proof {
            assert(events@ =~= old(events)@ + channel_events(t, layout, playable@, pulses@, base as int));
        }
        i = i + 1;
    }
    assert(notes@.take(i as int) =~= notes@);
}

/// The pulses of a channel's notes in increasing order, each once.
pub open spec fn sorted_pulses(notes: Seq<NoteEvent>) -> Seq<u64> {
    choose|v: Seq<u64>| strictly_sorted(v) && v.to_set() == pulse_set(notes, false)
}

/// A strictly increasing sequence is determined by its elements.
pub proof fn lemma_sorted_unique(a: Seq<u64>, b: Seq<u64>)
    requires
        strictly_sorted(a),
        strictly_sorted(b),
        a.to_set() == b.to_set(),
    ensures
        a == b,
    decreases a.len(),
{
    if a.len() == 0 || b.len() == 0 {
        if b.len() > 0 {
            assert(b.to_set().contains(b[0]));
        }
        if a.len() > 0 {
            assert(a.to_set().contains(a[0]));
        }
        assert(a =~= b);
    } else {
        assert(b.to_set().contains(a[0]));
        assert(a.to_set().contains(b[0]));
        let j = choose|j: int| 0 <= j < b.len() && b[j] == a[0];
        let k = choose|k: int| 0 <= k < a.len() && a[k] == b[0];
        assert(a[0] == b[0]);
        let a1 = a.drop_first();
        let b1 = b.drop_first();
        assert forall|x: u64| a1.to_set().contains(x) <==> b1.to_set().contains(x) by {
            if a1.to_set().contains(x) {
                let i = choose|i: int| 0 <= i < a1.len() && a1[i] == x;
                assert(a[i + 1] == x);
                assert(a.to_set().contains(x));
                assert(b.to_set().contains(x));
                let m = choose|m: int| 0 <= m < b.len() && b[m] == x;
                assert(m != 0);
                assert(b1[m - 1] == x);
            }
            if b1.to_set().contains(x) {
                let i = choose|i: int| 0 <= i < b1.len() && b1[i] == x;
                assert(b[i + 1] == x);
                assert(b.to_set().contains(x));
                assert(a.to_set().contains(x));
                let m = choose|m: int| 0 <= m < a.len() && a[m] == x;
                assert(m != 0);
                assert(a1[m - 1] == x);
            }
        }
        assert(a1.to_set() =~= b1.to_set());
        lemma_sorted_unique(a1, b1);
        assert(a =~= seq![a[0]] + a1);
        assert(b =~= seq![b[0]] + b1);
    }
}

/// The number of slices of the first `c` channels.
pub open spec fn slices_before(chs: Seq<SoundChannel<String>>, c: int) -> int
    decreases c,
{
    if c <= 0 {
        0
    } else {
        slices_before(chs, c - 1) + sorted_pulses(chs[c - 1].note_events@).len()
    }
}

proof fn lemma_slices_before_mono(chs: Seq<SoundChannel<String>>, a: int, b: int)
    requires
        0 <= a <= b,
    ensures
        slices_before(chs, a) <= slices_before(chs, b),
    decreases b - a,
{
    if a < b {
        lemma_slices_before_mono(chs, a, b - 1);
    }
}

/// The events of the first `c` sound channels, channel after channel.
pub open spec fn sound_events(chs: Seq<SoundChannel<String>>, c: int, layout: Layout, playable: Seq<u64>) -> Seq<Event>
    decreases c,
{
    if c <= 0 {
        Seq::empty()
    } else {
        sound_events(chs, c - 1, layout, playable) + channel_events(
            chs[c - 1].note_events@,
            layout,
            playable,
            sorted_pulses(chs[c - 1].note_events@),
            slices_before(chs, c - 1),
        )
    }
}

/// The number of notes in the first `c` channels.
pub open spec fn notes_before(chs: Seq<SoundChannel<String>>, c: int) -> int
    decreases c,
{
    if c <= 0 {
        0
    } else {
        notes_before(chs, c - 1) + chs[c - 1].note_events@.len()
    }
}

proof fn lemma_notes_before_mono(chs: Seq<SoundChannel<String>>, a: int, b: int)
    requires
        0 <= a <= b,
    ensures
        notes_before(chs, a) <= notes_before(chs, b),
    decreases b - a,
{
    if a < b {
        lemma_notes_before_mono(chs, a, b - 1);
    }
}

/// The events and slices of all sound channels: each channel adds its
/// slices after those of the earlier channels, and the events of its notes.
/// `times[c][i]` is the chart time of channel `c`'s `i`-th pulse.
pub fn process_sound_channels(
    channels: &Vec<SoundChannel<String>>,
    layout: Layout,
    times: &Vec<Vec<u64>>,
    playable: &Vec<u64>,
) -> (r: (Vec<AudioAsset<String>>, Vec<Event>))
    requires
        times@.len() == channels@.len(),
        forall|c: int|
            0 <= c < channels@.len() ==> (#[trigger] times@[c])@.len() == pulse_set(
                channels@[c].note_events@,
                false,
            ).len(),
        notes_before(channels@, channels@.len() as int) <= usize::MAX,
    ensures
        r.1@ == sound_events(channels@, channels@.len() as int, layout, playable@),
        r.0@.len() == slices_before(channels@, channels@.len() as int),
        r.0@.len() <= notes_before(channels@, channels@.len() as int),
        forall|c: int, i: int|
            0 <= c < channels@.len() && 0 <= i < sorted_pulses(channels@[c].note_events@).len()
                ==> (#[trigger] r.0@[slices_before(channels@, c) + i]).path@ == channels@[c].name@
                && (r.0@[slices_before(channels@, c) + i].start, r.0@[slices_before(channels@, c)
                + i].duration) == slice_of(
                channels@[c].note_events@,
                sorted_pulses(channels@[c].note_events@),
                times@[c]@,
                i,
            ),
{
    let mut assets: Vec<AudioAsset<String>> = Vec::new();
    let mut events: Vec<Event> = Vec::new();
    let mut c: usize = 0;
    while c < channels.len()
        invariant
            c <= channels@.len(),
            times@.len() == channels@.len(),
            notes_before(channels@, channels@.len() as int) <= usize::MAX,
            forall|k: int|
                0 <= k < channels@.len() ==> (#[trigger] times@[k])@.len() == pulse_set(
                    channels@[k].note_events@,
                    false,
                ).len(),
            assets@.len() <= notes_before(channels@, c as int),
            assets@.len() == slices_before(channels@, c as int),
            events@ == sound_events(channels@, c as int, layout, playable@),
            forall|cc: int, i: int|
                0 <= cc < c && 0 <= i < sorted_pulses(channels@[cc].note_events@).len()
                    ==> (#[trigger] assets@[slices_before(channels@, cc) + i]).path@ == channels@[cc].name@
                    && (assets@[slices_before(channels@, cc) + i].start, assets@[slices_before(channels@, cc)
                    + i].duration) == slice_of(
                    channels@[cc].note_events@,
                    sorted_pulses(channels@[cc].note_events@),
                    times@[cc]@,
                    i,
                ),
        decreases channels.len() - c,
    {
        let ch = &channels[c];
        let pulses = unique_pulses(&ch.note_events);
        proof {
            assert(pulses@.no_duplicates()) by {
                assert forall|a: int, b: int| 0 <= a < pulses@.len() && 0 <= b < pulses@.len() && a != b implies pulses@[a] != pulses@[b] by {
                    if a < b {
                    } else {
                    }
                }
            }
            pulses@.unique_seq_to_set();
            assert forall|i: int| 0 <= i < ch.note_events@.len() implies pulses@.contains(#[trigger] ch.note_events@[i].y) by {
                assert(pulse_set(ch.note_events@, false).contains(ch.note_events@[i].y));
                assert(pulses@.to_set().contains(ch.note_events@[i].y));
            }
        }
        let base = assets.len();
        let t = &times[c];
        proof {
            lemma_notes_before_mono(channels@, c + 1, channels@.len() as int);
            lemma_sorted_unique(pulses@, sorted_pulses(ch.note_events@));
            assert(pulses@.to_set() == pulse_set(ch.note_events@, false));
            assert(pulses@.len() == pulses@.to_set().len());
            assert(t@.len() == pulse_set(channels@[c as int].note_events@, false).len());
        }
        let sliced = slice_at_pulses(ch, &pulses, t);
        channel_note_events(&ch.note_events, layout, playable, &pulses, base, &mut events);
        let mut k: usize = 0;
        while k < sliced.len()
            invariant
                k <= sliced@.len(),
                c < channels@.len(),
                assets@.len() == base + k,
                base + sliced@.len() <= notes_before(channels@, c + 1),
                notes_before(channels@, c + 1) <= usize::MAX,
                base == slices_before(channels@, c as int),
                sliced@.len() == pulses@.len(),
                pulses@ == sorted_pulses(channels@[c as int].note_events@),
                forall|i: int| 0 <= i < sliced@.len() ==> (#[trigger] sliced@[i]).path@ == channels@[c as int].name@
                    && (sliced@[i].start, sliced@[i].duration) == slice_of(channels@[c as int].note_events@, pulses@, times@[c as int]@, i),
                forall|i: int|
                    0 <= i < k ==> (#[trigger] assets@[base + i]).path@ == sliced@[i].path@ && assets@[base
                        + i].start == sliced@[i].start && assets@[base + i].duration == sliced@[i].duration,
                forall|cc: int, i: int|
                    0 <= cc < c && 0 <= i < sorted_pulses(channels@[cc].note_events@).len()
                        ==> (#[trigger] assets@[slices_before(channels@, cc) + i]).path@ == channels@[cc].name@
                        && (assets@[slices_before(channels@, cc) + i].start, assets@[slices_before(channels@, cc)
                        + i].duration) == slice_of(
                        channels@[cc].note_events@,
                        sorted_pulses(channels@[cc].note_events@),
                        times@[cc]@,
                        i,
                    ),
            decreases sliced.len() - k,
        {
            let a = AudioAsset {
                path: sliced[k].path.clone(),
                start: sliced[k].start,
                duration: sliced[k].duration,
            };
            let ghost prev = assets@;
            assets.push(a);
            proof {
                assert(assets@ == prev.push(a));
                assert forall|cc: int, i: int|
                    0 <= cc < c && 0 <= i < sorted_pulses(channels@[cc].note_events@).len() implies (
                    #[trigger] assets@[slices_before(channels@, cc) + i]).path@ == channels@[cc].name@
                        && (assets@[slices_before(channels@, cc) + i].start, assets@[slices_before(channels@, cc)
                        + i].duration) == slice_of(
                        channels@[cc].note_events@,
                        sorted_pulses(channels@[cc].note_events@),
                        times@[cc]@,
                        i,
                    ) by {
                    lemma_slices_before_mono(channels@, cc + 1, c as int);
                    lemma_slices_before_mono(channels@, 0, cc);
                    assert(slices_before(channels@, cc + 1) == slices_before(channels@, cc)
                        + sorted_pulses(channels@[cc].note_events@).len());
                    assert(slices_before(channels@, cc) + i < prev.len());
                    assert(assets@[slices_before(channels@, cc) + i] == prev[slices_before(channels@, cc) + i]);
                }
                assert forall|i: int| 0 <= i < k + 1 implies (#[trigger] assets@[base + i]).path@ == sliced@[i].path@ && assets@[base
                        + i].start == sliced@[i].start && assets@[base + i].duration == sliced@[i].duration by {
                    if i < k {
                        assert(assets@[base + i] == prev[base + i]);
                    }
                }
            }
            k = k + 1;
        }
        c = c + 1;
    }
    (assets, events)
}

// ---------------------------------------------------------------------------
// Key channels, BGA, stops and bar lines
// ---------------------------------------------------------------------------

/// The extras of a key-channel note: none.
pub open spec fn no_ext() -> BmsonNoteExt {
    BmsonNoteExt {
        vol: None,
        pan: None,
        release_sound: None,
        beatoraja_ln_mode: None,
        ln_type_hint: None,
        ln_judge_hint: None,
        ln_life_hint: None,
    }
}

/// The events of a mine channel's notes, in order: each mine with a lane in
/// the layout becomes a mine note of its damage playing slice `audio`.
pub open spec fn mine_note_events(notes: Seq<MineNote>, layout: Layout, audio: u32) -> Seq<Event>
    decreases notes.len(),
{
    if notes.len() == 0 {
        Seq::empty()
    } else {
        let prev = mine_note_events(notes.drop_last(), layout, audio);
        let n = notes.last();
        match layout_lane(layout, n.x) {
            None => prev,
            Some((side, lane)) => prev.push(
                Event {
                    tick: n.y,
                    kind: EventKind::Note {
                        side,
                        lane,
                        kind: NoteKind::Mine { damage_bits: n.damage_bits },
                        audio_index: Some(audio),
                        ext: no_ext(),
                    },
                },
            ),
        }
    }
}

/// The events of the first `c` mine channels; channel `k` plays slice
/// `base + k`.
pub open spec fn mine_events(chs: Seq<MineChannel<String>>, c: int, layout: Layout, base: int) -> Seq<Event>
    decreases c,
{
    if c <= 0 {
        Seq::empty()
    } else {
        mine_events(chs, c - 1, layout, base) + mine_note_events(
            chs[c - 1].notes@,
            layout,
            (base + c - 1) as u32,
        )
    }
}

/// The events of a key channel's notes, in order: each note with a lane in
/// the layout becomes an invisible note playing slice `audio`.
pub open spec fn key_note_events(notes: Seq<KeyNote>, layout: Layout, audio: u32) -> Seq<Event>
    decreases notes.len(),
{
    if notes.len() == 0 {
        Seq::empty()
    } else {
        let prev = key_note_events(notes.drop_last(), layout, audio);
        let n = notes.last();
        match layout_lane(layout, n.x) {
            None => prev,
            Some((side, lane)) => prev.push(
                Event {
                    tick: n.y,
                    kind: EventKind::Note {
                        side,
                        lane,
                        kind: NoteKind::Invisible,
                        audio_index: Some(audio),
                        ext: no_ext(),
                    },
                },
            ),
        }
    }
}

/// The events of the first `c` key channels; channel `k` plays slice
/// `base + k`.
pub open spec fn key_events(chs: Seq<KeyChannel<String>>, c: int, layout: Layout, base: int) -> Seq<Event>
    decreases c,
{
    if c <= 0 {
        Seq::empty()
    } else {
        key_events(chs, c - 1, layout, base) + key_note_events(
            chs[c - 1].notes@,
            layout,
            (base + c - 1) as u32,
        )
    }
}

/// The mine events of mine channels: each channel's file becomes one
/// whole-file slice, after the slices already in `assets`, and each of its
/// mines with a lane in the layout a mine note playing it.
pub fn process_mine_channels(
    channels: &Vec<MineChannel<String>>,
    layout: Layout,
    assets: &mut Vec<AudioAsset<String>>,
    events: &mut Vec<Event>,
)
    requires
        old(assets)@.len() + channels@.len() < 0x1_0000_0000,
    ensures
        final(assets)@.len() == old(assets)@.len() + channels@.len(),
        final(assets)@.take(old(assets)@.len() as int) == old(assets)@,
        forall|c: int|
            0 <= c < channels@.len() ==> (#[trigger] final(assets)@[old(assets)@.len() + c]).path@
                == channels@[c].name@ && final(assets)@[old(assets)@.len() + c].start == 0 && final(assets)@[old(assets)@.len() + c].duration is None,
        final(events)@ == old(events)@ + mine_events(channels@, channels@.len() as int, layout, old(assets)@.len() as int),
{
    let a0 = assets.len();
    let mut c: usize = 0;
    while c < channels.len()
        invariant
            c <= channels@.len(),
            a0 == old(assets)@.len(),
            a0 + channels@.len() < 0x1_0000_0000,
            assets@.len() == a0 + c,
            assets@.take(a0 as int) == old(assets)@,
            forall|k: int|
                0 <= k < c ==> (#[trigger] assets@[a0 + k]).path@ == channels@[k].name@ && assets@[a0
                    + k].start == 0 && assets@[a0 + k].duration is None,
            events@ == old(events)@ + mine_events(channels@, c as int, layout, a0 as int),
        decreases channels.len() - c,
    {
        let mc = &channels[c];
        let idx: u32 = (a0 + c) as u32;
        let ghost assets_before = assets@;
        let ghost events_before = events@;
        assets.push(AudioAsset { path: mc.name.clone(), start: 0, duration: None });
        proof {
            assert(assets@.take(a0 as int) =~= assets_before.take(a0 as int));
            assert forall|k: int| 0 <= k < c + 1 implies (#[trigger] assets@[a0 + k]).path@
                == channels@[k].name@ && assets@[a0 + k].start == 0 && assets@[a0 + k].duration is None by {
                if k < c {
                    assert(assets@[a0 + k] == assets_before[a0 + k]);
                }
            }
        }
        let mut j: usize = 0;
        while j < mc.notes.len()
            invariant
                j <= mc.notes@.len(),
                idx == a0 + c,
                mc == channels@[c as int],
                events@ == events_before + mine_note_events(mc.notes@.take(j as int), layout, idx),
            decreases mc.notes.len() - j,
        {
            let kn = mc.notes[j];
            let ghost t = mc.notes@.take(j + 1);
            proof {
                assert(t.drop_last() =~= mc.notes@.take(j as int));
                assert(t.last() == kn);
            }
            match layout.map_x(kn.x) {
                None => {},
                Some((side, lane)) => {
                    events.push(
                        Event {
                            tick: kn.y,
                            kind: EventKind::Note {
                                side,
                                lane,
                                kind: NoteKind::Mine { damage_bits: kn.damage_bits },
                                audio_index: Some(idx),
                                ext: BmsonNoteExt {
                                    vol: None,
                                    pan: None,
                                    release_sound: None,
                                    beatoraja_ln_mode: None,
                                    ln_type_hint: None,
                                    ln_judge_hint: None,
                                    ln_life_hint: None,
                                },
                            },
                        },
                    );
                },
            }
            proof {
                assert(events@ =~= events_before + mine_note_events(t, layout, idx));
            }
            j = j + 1;
        }
        proof {
            assert(mc.notes@.take(j as int) =~= mc.notes@);
            assert(events@ =~= old(events)@ + mine_events(channels@, c + 1, layout, a0 as int));
        }
        c = c + 1;
    }
}

/// The invisible-note events of key channels: each channel's file becomes
/// one whole-file slice, after the slices already in `assets`, and each of
/// its notes with a lane in the layout an invisible note playing it.
pub fn process_key_channels(
    channels: &Vec<KeyChannel<String>>,
    layout: Layout,
    assets: &mut Vec<AudioAsset<String>>,
    events: &mut Vec<Event>,
)
    requires
        old(assets)@.len() + channels@.len() < 0x1_0000_0000,
    ensures
        final(assets)@.len() == old(assets)@.len() + channels@.len(),
        final(assets)@.take(old(assets)@.len() as int) == old(assets)@,
        forall|c: int|
            0 <= c < channels@.len() ==> (#[trigger] final(assets)@[old(assets)@.len() + c]).path@
                == channels@[c].name@ && final(assets)@[old(assets)@.len() + c].start == 0 && final(assets)@[old(assets)@.len() + c].duration is None,
        final(events)@ == old(events)@ + key_events(channels@, channels@.len() as int, layout, old(assets)@.len() as int),
{
    let a0 = assets.len();
    let mut c: usize = 0;
    while c < channels.len()
        invariant
            c <= channels@.len(),
            a0 == old(assets)@.len(),
            a0 + channels@.len() < 0x1_0000_0000,
            assets@.len() == a0 + c,
            assets@.take(a0 as int) == old(assets)@,
            forall|k: int|
                0 <= k < c ==> (#[trigger] assets@[a0 + k]).path@ == channels@[k].name@ && assets@[a0
                    + k].start == 0 && assets@[a0 + k].duration is None,
            events@ == old(events)@ + key_events(channels@, c as int, layout, a0 as int),
        decreases channels.len() - c,
    {
        let kc = &channels[c];
        let idx: u32 = (a0 + c) as u32;
        let ghost assets_before = assets@;
        let ghost events_before = events@;
        assets.push(AudioAsset { path: kc.name.clone(), start: 0, duration: None });
        proof {
            assert(assets@.take(a0 as int) =~= assets_before.take(a0 as int));
            assert forall|k: int| 0 <= k < c + 1 implies (#[trigger] assets@[a0 + k]).path@
                == channels@[k].name@ && assets@[a0 + k].start == 0 && assets@[a0 + k].duration is None by {
                if k < c {
                    assert(assets@[a0 + k] == assets_before[a0 + k]);
                }
            }
        }
        let mut j: usize = 0;
        while j < kc.notes.len()
            invariant
                j <= kc.notes@.len(),
                idx == a0 + c,
                kc == channels@[c as int],
                events@ == events_before + key_note_events(kc.notes@.take(j as int), layout, idx),
            decreases kc.notes.len() - j,
        {
            let kn = kc.notes[j];
            let ghost t = kc.notes@.take(j + 1);
            proof {
                assert(t.drop_last() =~= kc.notes@.take(j as int));
                assert(t.last() == kn);
            }
            match layout.map_x(kn.x) {
                None => {},
                Some((side, lane)) => {
                    events.push(
                        Event {
                            tick: kn.y,
                            kind: EventKind::Note {
                                side,
                                lane,
                                kind: NoteKind::Invisible,
                                audio_index: Some(idx),
                                ext: BmsonNoteExt {
                                    vol: None,
                                    pan: None,
                                    release_sound: None,
                                    beatoraja_ln_mode: None,
                                    ln_type_hint: None,
                                    ln_judge_hint: None,
                                    ln_life_hint: None,
                                },
                            },
                        },
                    );
                },
            }
            proof {
                assert(events@ =~= events_before + key_note_events(t, layout, idx));
            }
            j = j + 1;
        }
        proof {
            assert(kc.notes@.take(j as int) =~= kc.notes@);
            assert(events@ =~= old(events)@ + key_events(channels@, c + 1, layout, a0 as int));
        }
        c = c + 1;
    }
}

/// The BGA events of one layer, in order: each image change at its pulse.
/// An id above `u32::MAX` keeps its low 32 bits.
pub fn bga_layer_events(evs: &Vec<BGAEvent>, layer: BgaLayer, events: &mut Vec<Event>)
    ensures
        final(events)@.len() == old(events)@.len() + evs@.len(),
        final(events)@.take(old(events)@.len() as int) == old(events)@,
        forall|i: int|
            0 <= i < evs@.len() ==> #[trigger] final(events)@[old(events)@.len() + i] == (Event {
                tick: evs@[i].y,
                kind: EventKind::Bga { layer, resource_id: evs@[i].id as u32 },
            }),
{
    let e0 = events.len();
    let mut i: usize = 0;
    while i < evs.len()
        invariant
            i <= evs@.len(),
            e0 == old(events)@.len(),
            events@.len() == e0 + i,
            events@.take(e0 as int) == old(events)@,
            forall|k: int|
                0 <= k < i ==> #[trigger] events@[e0 + k] == (Event {
                    tick: evs@[k].y,
                    kind: EventKind::Bga { layer, resource_id: evs@[k].id as u32 },
                }),
        decreases evs.len() - i,
    {
        let e = evs[i];
        let ghost before = events@;
        #[verifier::truncate]
        let id: u32 = e.id as u32;
        events.push(Event { tick: e.y, kind: EventKind::Bga { layer, resource_id: id } });
        proof {
            assert(events@.take(e0 as int) =~= before.take(e0 as int));
            assert forall|k: int| 0 <= k < i + 1 implies #[trigger] events@[e0 + k] == (Event {
                tick: evs@[k].y,
                kind: EventKind::Bga { layer, resource_id: evs@[k].id as u32 },
            }) by {
                if k < i {
                    assert(events@[e0 + k] == before[e0 + k]);
                }
            }
        }
        i = i + 1;
    }
}

/// The stop events, in order.
pub fn stop_events(stops: &Vec<StopEvent>) -> (r: Vec<Event>)
    ensures
        r@ == stop_event_seq(stops@),
        r@.len() == stops@.len(),
        forall|i: int|
            0 <= i < r@.len() ==> #[trigger] r@[i] == (Event {
                tick: stops@[i].y,
                kind: EventKind::Stop { duration: stops@[i].duration },
            }),
{
    let mut out: Vec<Event> = Vec::new();
    let mut i: usize = 0;
    while i < stops.len()
        invariant
            i <= stops@.len(),
            out@.len() == i,
            forall|k: int|
                0 <= k < i ==> #[trigger] out@[k] == (Event {
                    tick: stops@[k].y,
                    kind: EventKind::Stop { duration: stops@[k].duration },
                }),
        decreases stops.len() - i,
    {
        let s = stops[i];
        out.push(Event { tick: s.y, kind: EventKind::Stop { duration: s.duration } });
        i = i + 1;
    }
    assert(out@ =~= stop_event_seq(stops@));
    out
}

/// The tempo changes, in order.
pub open spec fn bpm_event_seq(evs: Seq<BpmEvent>) -> Seq<Event> {
    evs.map_values(|e: BpmEvent| Event { tick: e.y, kind: EventKind::Bpm { bpm_bits: e.bpm_bits } })
}

/// The scroll-speed changes, in order.
pub open spec fn scroll_event_seq(evs: Seq<ScrollEvent>) -> Seq<Event> {
    evs.map_values(|e: ScrollEvent| Event { tick: e.y, kind: EventKind::Scroll { rate_bits: e.rate_bits } })
}

/// The tempo-change events, in order.
pub fn bpm_events(evs: &Vec<BpmEvent>) -> (r: Vec<Event>)
    ensures
        r@ == bpm_event_seq(evs@),
{
    let mut out: Vec<Event> = Vec::new();
    let mut i: usize = 0;
    while i < evs.len()
        invariant
            i <= evs@.len(),
            out@ == bpm_event_seq(evs@.take(i as int)),
        decreases evs.len() - i,
    {
        let e = evs[i];
        out.push(Event { tick: e.y, kind: EventKind::Bpm { bpm_bits: e.bpm_bits } });
        i = i + 1;
        assert(out@ =~= bpm_event_seq(evs@.take(i as int)));
    }
    assert(evs@.take(i as int) =~= evs@);
    out
}

/// The scroll-speed events, in order.
pub fn scroll_events(evs: &Vec<ScrollEvent>) -> (r: Vec<Event>)
    ensures
        r@ == scroll_event_seq(evs@),
{
    let mut out: Vec<Event> = Vec::new();
    let mut i: usize = 0;
    while i < evs.len()
        invariant
            i <= evs@.len(),
            out@ == scroll_event_seq(evs@.take(i as int)),
        decreases evs.len() - i,
    {
        let e = evs[i];
        out.push(Event { tick: e.y, kind: EventKind::Scroll { rate_bits: e.rate_bits } });
        i = i + 1;
        assert(out@ =~= scroll_event_seq(evs@.take(i as int)));
    }
    assert(evs@.take(i as int) =~= evs@);
    out
}

/// The pulses of the bar lines: the given lines when the chart lists them;
/// otherwise one every four beats (`4 * resolution` pulses) from 0 through
/// one step past the last event's pulse.
pub open spec fn bar_ticks(lines: Option<Seq<BarLine>>, resolution: u64, last_tick: u64) -> Seq<u64> {
    match lines {
        Some(ls) => ls.map_values(|b: BarLine| b.y),
        None => {
            let step = 4 * (resolution as int);
            let count = (last_tick as int) / step + 1;
            Seq::new((count + 1) as nat, |i: int| (i * step) as u64)
        },
    }
}

/// Builds the bar-line pulses (see [`bar_ticks`]).
pub fn build_bar_lines(lines: Option<&Vec<BarLine>>, resolution: u64, last_tick: u64) -> (r: Vec<u64>)
    requires
        lines is None ==> 1 <= resolution,
        lines is None ==> last_tick + 4 * resolution <= u64::MAX,
    ensures
        r@ == bar_ticks(
            match lines {
                Some(v) => Some(v@),
                None => None,
            },
            resolution,
            last_tick,
        ),
{
    match lines {
        Some(v) => {
            let mut out: Vec<u64> = Vec::new();
            let mut i: usize = 0;
            while i < v.len()
                invariant
                    i <= v@.len(),
                    out@ == v@.take(i as int).map_values(|b: BarLine| b.y),
                decreases v.len() - i,
            {
                out.push(v[i].y);
                i = i + 1;
                assert(out@ =~= v@.take(i as int).map_values(|b: BarLine| b.y));
            }
            assert(v@.take(i as int) =~= v@);
            out
        },
        None => {
            let step = resolution * 4;
            let count = last_tick / step + 1;
            let mut out: Vec<u64> = Vec::new();
            let mut i: u64 = 0;
            proof {
                assert(count * step <= last_tick + step) by (nonlinear_arith)
                    requires
                        count == last_tick / step + 1,
                        step > 0,
                ;
            }
            while i <= count
                invariant
                    i <= count + 1,
                    count == last_tick / step + 1,
                    step == 4 * resolution,
                    count * step <= last_tick + step,
                    last_tick + step <= u64::MAX,
                    step > 0,
                    out@ == Seq::new(i as nat, |k: int| (k * step) as u64),
                decreases count + 1 - i,
            {
                proof {
                    assert(i * step <= count * step) by (nonlinear_arith)
                        requires
                            i <= count,
                            step > 0,
                    ;
                }
                out.push(i * step);
                i = i + 1;
                assert(out@ =~= Seq::new(i as nat, |k: int| (k * step) as u64));
            }
            out
        },
    }
}

// ---------------------------------------------------------------------------
// Chart presentation
// ---------------------------------------------------------------------------

/// A BGA image that a chart uses.
#[derive(Clone, Debug, PartialEq, Eq)]
pub struct BgaResource {
    /// The image id (its low 32 bits).
    pub id: u32,
    /// The image file.
    pub path: String,
}

/// The identification of a processed song.
#[derive(Clone, Debug, PartialEq, Eq)]
pub struct SongMeta {
    /// Title.
    pub title: String,
    /// Artist.
    pub artist: String,
    /// Genre.
    pub genre: String,
    /// Contributors besides the artist.
    pub subartists: Vec<String>,
}

/// The song's identification: its title, artist and genre, and the chart's
/// other contributors, in order.
pub fn build_song_info(song: &crate::bmson::SongInfo<String>, chart: &crate::bmson::ChartInfo<String>) -> (r: SongMeta)
    ensures
        r.title@ == song.title@,
        r.artist@ == song.artist@,
        r.genre@ == song.genre@,
        r.subartists@.len() == chart.subartists@.len(),
        forall|i: int| 0 <= i < r.subartists@.len() ==> (#[trigger] r.subartists@[i])@ == chart.subartists@[i]@,
{
    let mut subs: Vec<String> = Vec::new();
    let mut i: usize = 0;
    while i < chart.subartists.len()
        invariant
            i <= chart.subartists@.len(),
            subs@.len() == i,
            forall|k: int| 0 <= k < i ==> (#[trigger] subs@[k])@ == chart.subartists@[k]@,
        decreases chart.subartists.len() - i,
    {
        subs.push(chart.subartists[i].clone());
        i = i + 1;
    }
    SongMeta { title: song.title.clone(), artist: song.artist.clone(), genre: song.genre.clone(), subartists: subs }
}

/// The presentation of a processed chart.
#[derive(Clone, Debug, PartialEq, Eq)]
pub struct ChartMeta {
    /// Subtitle.
    pub subtitle: String,
    /// Chart name.
    pub chart_name: String,
    /// Level.
    pub level: u64,
    /// Background image.
    pub back_image: Option<String>,
    /// Loading image.
    pub eyecatch_image: Option<String>,
    /// Banner.
    pub banner_image: Option<String>,
    /// Preview sound.
    pub preview_music: Option<String>,
    /// The BGA images, in the order of their definitions.
    pub bga_resources: Vec<BgaResource>,
}

pub open spec fn opt_text(o: Option<String>) -> Option<Seq<char>> {
    match o {
        Some(t) => Some(t@),
        None => None,
    }
}

fn clone_opt(o: &Option<String>) -> (r: Option<String>)
    ensures
        opt_text(r) == opt_text(*o),
{
    match o {
        Some(t) => Some(t.clone()),
        None => None,
    }
}

/// The presentation of a chart: its texts and images, and one BGA resource
/// per image definition (the id's low 32 bits and the file).
pub fn build_chart_info(info: &crate::bmson::ChartInfo<String>) -> (r: ChartMeta)
    ensures
        r.subtitle@ == info.subtitle@,
        r.chart_name@ == info.chart_name@,
        r.level == info.level,
        opt_text(r.back_image) == opt_text(info.back_image),
        opt_text(r.eyecatch_image) == opt_text(info.eyecatch_image),
        opt_text(r.banner_image) == opt_text(info.banner_image),
        opt_text(r.preview_music) == opt_text(info.preview_music),
        r.bga_resources@.len() == info.bga.bga_header@.len(),
        forall|i: int|
            0 <= i < r.bga_resources@.len() ==> (#[trigger] r.bga_resources@[i]).id == info.bga.bga_header@[i].id as u32
                && r.bga_resources@[i].path@ == info.bga.bga_header@[i].name@,
{
    let headers = &info.bga.bga_header;
    let mut res: Vec<BgaResource> = Vec::new();
    let mut i: usize = 0;
    while i < headers.len()
        invariant
            i <= headers@.len(),
            res@.len() == i,
            forall|k: int|
                0 <= k < i ==> (#[trigger] res@[k]).id == headers@[k].id as u32 && res@[k].path@
                    == headers@[k].name@,
        decreases headers.len() - i,
    {
        #[verifier::truncate]
        let id: u32 = headers[i].id as u32;
        res.push(BgaResource { id, path: headers[i].name.clone() });
        i = i + 1;
    }
    ChartMeta {
        subtitle: info.subtitle.clone(),
        chart_name: info.chart_name.clone(),
        level: info.level,
        back_image: clone_opt(&info.back_image),
        eyecatch_image: clone_opt(&info.eyecatch_image),
        banner_image: clone_opt(&info.banner_image),
        preview_music: clone_opt(&info.preview_music),
        bga_resources: res,
    }
}

// ---------------------------------------------------------------------------
// The whole chart
// ---------------------------------------------------------------------------

/// The playable pulses of a chart's sound channels, in increasing order.
pub open spec fn playable_pulses(chs: Seq<SoundChannel<String>>) -> Seq<u64> {
    choose|v: Seq<u64>|
        strictly_sorted(v) && forall|y: u64|
            v.contains(y) <==> exists|c: int|
                0 <= c < chs.len() && #[trigger] pulse_set(chs[c].note_events@, true).contains(y)
}

/// The stop events, in order.
pub open spec fn stop_event_seq(stops: Seq<StopEvent>) -> Seq<Event> {
    stops.map_values(|e: StopEvent| Event { tick: e.y, kind: EventKind::Stop { duration: e.duration } })
}

/// The BGA events of one layer, in order.
pub open spec fn bga_event_seq(evs: Seq<BGAEvent>, layer: BgaLayer) -> Seq<Event> {
    evs.map_values(
        |e: BGAEvent| Event { tick: e.y, kind: EventKind::Bga { layer, resource_id: e.id as u32 } },
    )
}

/// A bar line at each pulse.
pub open spec fn bar_events(ticks: Seq<u64>) -> Seq<Event> {
    ticks.map_values(|t: u64| Event { tick: t, kind: EventKind::Bar })
}

/// The largest pulse of the events, 0 where there are none.
pub open spec fn max_tick(evs: Seq<Event>) -> u64
    decreases evs.len(),
{
    if evs.len() == 0 {
        0
    } else {
        let m = max_tick(evs.drop_last());
        if evs.last().tick > m {
            evs.last().tick
        } else {
            m
        }
    }
}

/// The events of a chart before bar lines, in this order: the sound
/// channels' notes, the mine channels' notes, the key channels' notes, the
/// tempo changes, the stops, the scroll-speed changes and the three BGA
/// layers.  The mine channels' slices follow the sound slices, and the key
/// channels' slices follow those.
pub open spec fn events_before_bars(
    sound: Seq<SoundChannel<String>>,
    mines: Seq<MineChannel<String>>,
    keys: Seq<KeyChannel<String>>,
    bpms: Seq<BpmEvent>,
    stops: Seq<StopEvent>,
    scrolls: Seq<ScrollEvent>,
    bga: crate::bmson::BGA<String>,
    layout: Layout,
) -> Seq<Event> {
    let s = slices_before(sound, sound.len() as int);
    sound_events(sound, sound.len() as int, layout, playable_pulses(sound)) + mine_events(
        mines,
        mines.len() as int,
        layout,
        s,
    ) + key_events(keys, keys.len() as int, layout, s + mines.len()) + bpm_event_seq(bpms) + stop_event_seq(stops)
        + scroll_event_seq(scrolls) + bga_event_seq(bga.bga_events@, BgaLayer::Base) + bga_event_seq(
        bga.layer_events@,
        BgaLayer::Layer,
    ) + bga_event_seq(bga.poor_events@, BgaLayer::Poor)
}

/// The events of a chart, before they are ordered: those of
/// [`events_before_bars`], then its bar lines (see [`bar_ticks`]), which
/// reach past the last of them.
pub open spec fn chart_events(
    sound: Seq<SoundChannel<String>>,
    mines: Seq<MineChannel<String>>,
    keys: Seq<KeyChannel<String>>,
    bpms: Seq<BpmEvent>,
    stops: Seq<StopEvent>,
    scrolls: Seq<ScrollEvent>,
    bga: crate::bmson::BGA<String>,
    lines: Option<Seq<BarLine>>,
    resolution: u64,
    layout: Layout,
) -> Seq<Event> {
    let pre = events_before_bars(sound, mines, keys, bpms, stops, scrolls, bga, layout);
    pre + bar_events(bar_ticks(lines, resolution, max_tick(pre)))
}

proof fn lemma_max_tick_bound(evs: Seq<Event>, b: u64)
    requires
        forall|i: int| 0 <= i < evs.len() ==> (#[trigger] evs[i]).tick <= b,
    ensures
        max_tick(evs) <= b,
    decreases evs.len(),
{
    if evs.len() > 0 {
        assert forall|i: int| 0 <= i < evs.drop_last().len() implies (#[trigger] evs.drop_last()[i]).tick <= b by {
            assert(evs.drop_last()[i] == evs[i]);
        }
        lemma_max_tick_bound(evs.drop_last(), b);
        assert(evs.last() == evs[evs.len() - 1]);
    }
}

proof fn lemma_channel_events_ticks(
    notes: Seq<NoteEvent>,
    layout: Layout,
    playable: Seq<u64>,
    pulses: Seq<u64>,
    base: int,
    b: u64,
)
    requires
        forall|i: int| 0 <= i < notes.len() ==> (#[trigger] notes[i]).y <= b,
    ensures
        forall|k: int|
            0 <= k < channel_events(notes, layout, playable, pulses, base).len() ==> (#[trigger] channel_events(
                notes,
                layout,
                playable,
                pulses,
                base,
            )[k]).tick <= b,
    decreases notes.len(),
{
    if notes.len() > 0 {
        assert forall|i: int| 0 <= i < notes.drop_last().len() implies (#[trigger] notes.drop_last()[i]).y <= b by {
            assert(notes.drop_last()[i] == notes[i]);
        }
        lemma_channel_events_ticks(notes.drop_last(), layout, playable, pulses, base, b);
        assert(notes.last() == notes[notes.len() - 1]);
    }
}

proof fn lemma_sound_events_ticks(chs: Seq<SoundChannel<String>>, c: int, layout: Layout, playable: Seq<u64>, b: u64)
    requires
        0 <= c <= chs.len(),
        forall|k: int, i: int|
            0 <= k < chs.len() && 0 <= i < chs[k].note_events@.len() ==> (#[trigger] chs[k].note_events@[i]).y <= b,
    ensures
        forall|j: int|
            0 <= j < sound_events(chs, c, layout, playable).len() ==> (#[trigger] sound_events(chs, c, layout, playable)[j]).tick <= b,
    decreases c,
{
    if c > 0 {
        lemma_sound_events_ticks(chs, c - 1, layout, playable, b);
        let notes = chs[c - 1].note_events@;
        assert forall|i: int| 0 <= i < notes.len() implies (#[trigger] notes[i]).y <= b by {
            assert(chs[c - 1].note_events@[i].y <= b);
        }
        lemma_channel_events_ticks(notes, layout, playable, sorted_pulses(notes), slices_before(chs, c - 1), b);
        let prev = sound_events(chs, c - 1, layout, playable);
        let cur = channel_events(notes, layout, playable, sorted_pulses(notes), slices_before(chs, c - 1));
        assert forall|j: int| 0 <= j < sound_events(chs, c, layout, playable).len() implies (#[trigger] sound_events(chs, c, layout, playable)[j]).tick <= b by {
            if j < prev.len() {
                assert(sound_events(chs, c, layout, playable)[j] == prev[j]);
            } else {
                assert(sound_events(chs, c, layout, playable)[j] == cur[j - prev.len()]);
            }
        }
    }
}

proof fn lemma_mine_note_events_ticks(notes: Seq<MineNote>, layout: Layout, audio: u32, b: u64)
    requires
        forall|i: int| 0 <= i < notes.len() ==> (#[trigger] notes[i]).y <= b,
    ensures
        forall|k: int|
            0 <= k < mine_note_events(notes, layout, audio).len() ==> (#[trigger] mine_note_events(notes, layout, audio)[k]).tick <= b,
    decreases notes.len(),
{
    if notes.len() > 0 {
        assert forall|i: int| 0 <= i < notes.drop_last().len() implies (#[trigger] notes.drop_last()[i]).y <= b by {
            assert(notes.drop_last()[i] == notes[i]);
        }
        lemma_mine_note_events_ticks(notes.drop_last(), layout, audio, b);
        assert(notes.last() == notes[notes.len() - 1]);
    }
}

proof fn lemma_mine_events_ticks(chs: Seq<MineChannel<String>>, c: int, layout: Layout, base: int, b: u64)
    requires
        0 <= c <= chs.len(),
        forall|k: int, i: int| 0 <= k < chs.len() && 0 <= i < chs[k].notes@.len() ==> (#[trigger] chs[k].notes@[i]).y <= b,
    ensures
        forall|j: int|
            0 <= j < mine_events(chs, c, layout, base).len() ==> (#[trigger] mine_events(chs, c, layout, base)[j]).tick <= b,
    decreases c,
{
    if c > 0 {
        lemma_mine_events_ticks(chs, c - 1, layout, base, b);
        let notes = chs[c - 1].notes@;
        assert forall|i: int| 0 <= i < notes.len() implies (#[trigger] notes[i]).y <= b by {
            assert(chs[c - 1].notes@[i].y <= b);
        }
        lemma_mine_note_events_ticks(notes, layout, (base + c - 1) as u32, b);
        let prev = mine_events(chs, c - 1, layout, base);
        let cur = mine_note_events(notes, layout, (base + c - 1) as u32);
        assert forall|j: int| 0 <= j < mine_events(chs, c, layout, base).len() implies (#[trigger] mine_events(chs, c, layout, base)[j]).tick <= b by {
            if j < prev.len() {
                assert(mine_events(chs, c, layout, base)[j] == prev[j]);
            } else {
                assert(mine_events(chs, c, layout, base)[j] == cur[j - prev.len()]);
            }
        }
    }
}

proof fn lemma_key_note_events_ticks(notes: Seq<KeyNote>, layout: Layout, audio: u32, b: u64)
    requires
        forall|i: int| 0 <= i < notes.len() ==> (#[trigger] notes[i]).y <= b,
    ensures
        forall|k: int|
            0 <= k < key_note_events(notes, layout, audio).len() ==> (#[trigger] key_note_events(notes, layout, audio)[k]).tick <= b,
    decreases notes.len(),
{
    if notes.len() > 0 {
        assert forall|i: int| 0 <= i < notes.drop_last().len() implies (#[trigger] notes.drop_last()[i]).y <= b by {
            assert(notes.drop_last()[i] == notes[i]);
        }
        lemma_key_note_events_ticks(notes.drop_last(), layout, audio, b);
        assert(notes.last() == notes[notes.len() - 1]);
    }
}

proof fn lemma_key_events_ticks(chs: Seq<KeyChannel<String>>, c: int, layout: Layout, base: int, b: u64)
    requires
        0 <= c <= chs.len(),
        forall|k: int, i: int| 0 <= k < chs.len() && 0 <= i < chs[k].notes@.len() ==> (#[trigger] chs[k].notes@[i]).y <= b,
    ensures
        forall|j: int|
            0 <= j < key_events(chs, c, layout, base).len() ==> (#[trigger] key_events(chs, c, layout, base)[j]).tick <= b,
    decreases c,
{
    if c > 0 {
        lemma_key_events_ticks(chs, c - 1, layout, base, b);
        let notes = chs[c - 1].notes@;
        assert forall|i: int| 0 <= i < notes.len() implies (#[trigger] notes[i]).y <= b by {
            assert(chs[c - 1].notes@[i].y <= b);
        }
        lemma_key_note_events_ticks(notes, layout, (base + c - 1) as u32, b);
        let prev = key_events(chs, c - 1, layout, base);
        let cur = key_note_events(notes, layout, (base + c - 1) as u32);
        assert forall|j: int| 0 <= j < key_events(chs, c, layout, base).len() implies (#[trigger] key_events(chs, c, layout, base)[j]).tick <= b by {
            if j < prev.len() {
                assert(key_events(chs, c, layout, base)[j] == prev[j]);
            } else {
                assert(key_events(chs, c, layout, base)[j] == cur[j - prev.len()]);
            }
        }
    }
}

/// The largest pulse of the events, 0 where there are none.
pub fn last_tick(events: &Vec<Event>) -> (r: u64)
    ensures
        r == max_tick(events@),
{
    let mut m: u64 = 0;
    let mut i: usize = 0;
    while i < events.len()
        invariant
            i <= events@.len(),
            m == max_tick(events@.take(i as int)),
        decreases events.len() - i,
    {
        proof {
            assert(events@.take(i + 1).drop_last() =~= events@.take(i as int));
        }
        if events[i].tick > m {
            m = events[i].tick;
        }
        i = i + 1;
    }
    assert(events@.take(i as int) =~= events@);
    m
}

// ---------------------------------------------------------------------------
// Ordering events
// ---------------------------------------------------------------------------

/// Whether the events are in order of their pulses.
pub open spec fn tick_sorted(s: Seq<Event>) -> bool {
    forall|i: int, j: int| 0 <= i < j < s.len() ==> s[i].tick <= s[j].tick
}

/// `s` with `e` placed after every event at a pulse no later than `e`'s,
/// and before the later ones that close `s`.
pub open spec fn insert_by_tick(s: Seq<Event>, e: Event) -> Seq<Event>
    decreases s.len(),
{
    if s.len() == 0 {
        seq![e]
    } else if s.last().tick <= e.tick {
        s.push(e)
    } else {
        insert_by_tick(s.drop_last(), e).push(s.last())
    }
}

/// The events in order of their pulses; events at the same pulse keep
/// their order (a stable sort by pulse).
pub open spec fn sort_by_tick(s: Seq<Event>) -> Seq<Event>
    decreases s.len(),
{
    if s.len() == 0 {
        Seq::empty()
    } else {
        insert_by_tick(sort_by_tick(s.drop_last()), s.last())
    }
}

proof fn lemma_insert_by_tick(s: Seq<Event>, e: Event)
    requires
        tick_sorted(s),
    ensures
        tick_sorted(insert_by_tick(s, e)),
        insert_by_tick(s, e).to_multiset() == s.to_multiset().insert(e),
        insert_by_tick(s, e).len() == s.len() + 1,
        forall|k: int|
            0 <= k < insert_by_tick(s, e).len() ==> #[trigger] insert_by_tick(s, e)[k] == e || s.contains(
                insert_by_tick(s, e)[k],
            ),
    decreases s.len(),
{
    broadcast use vstd::seq_lib::group_to_multiset_ensures;

    if s.len() == 0 {
        assert(seq![e] =~= Seq::<Event>::empty().push(e));
        assert(Seq::<Event>::empty().to_multiset() =~= vstd::multiset::Multiset::<Event>::empty());
    } else if s.last().tick <= e.tick {
        let r = s.push(e);
        assert forall|i: int, j: int| 0 <= i < j < r.len() implies r[i].tick <= r[j].tick by {
            if j == s.len() {
                assert(s[i].tick <= s[s.len() - 1].tick);
            }
        }
        assert forall|k: int| 0 <= k < r.len() implies #[trigger] r[k] == e || s.contains(r[k]) by {
            if k < s.len() {
                assert(s[k] == r[k]);
            }
        }
    } else {
        let d = s.drop_last();
        let last = s[s.len() - 1];
        assert(tick_sorted(d));
        lemma_insert_by_tick(d, e);
        let q = insert_by_tick(d, e);
        let r = q.push(last);
        assert(s =~= d.push(last));
        assert forall|k: int| 0 <= k < q.len() implies (#[trigger] q[k]).tick <= last.tick by {
            if q[k] != e {
                assert(d.contains(q[k]));
                let m = choose|m: int| 0 <= m < d.len() && d[m] == q[k];
                assert(s[m] == q[k]);
            }
        }
        assert forall|i: int, j: int| 0 <= i < j < r.len() implies r[i].tick <= r[j].tick by {
            if j == q.len() {
                assert(r[i] == q[i]);
            } else {
                assert(r[i] == q[i] && r[j] == q[j]);
            }
        }
        assert forall|k: int| 0 <= k < r.len() implies #[trigger] r[k] == e || s.contains(r[k]) by {
            if k < q.len() {
                assert(r[k] == q[k]);
                if q[k] != e {
                    let m = choose|m: int| 0 <= m < d.len() && d[m] == q[k];
                    assert(s[m] == r[k]);
                }
            } else {
                assert(s[s.len() - 1] == r[k]);
            }
        }
    }
}

/// Sorting by pulse keeps the events and orders them.
pub proof fn lemma_sort_by_tick(s: Seq<Event>)
    ensures
        tick_sorted(sort_by_tick(s)),
        sort_by_tick(s).to_multiset() == s.to_multiset(),
        sort_by_tick(s).len() == s.len(),
    decreases s.len(),
{
    broadcast use vstd::seq_lib::group_to_multiset_ensures;

    if s.len() == 0 {
        assert(Seq::<Event>::empty().to_multiset() =~= vstd::multiset::Multiset::<Event>::empty());
    } else {
        lemma_sort_by_tick(s.drop_last());
        lemma_insert_by_tick(sort_by_tick(s.drop_last()), s.last());
        assert(s =~= s.drop_last().push(s.last()));
    }
}

/// Where `e` goes in `s`: after position `p`'s predecessors, when every
/// event from `p` on is later than `e` and the one before is not.
proof fn lemma_insert_at(s: Seq<Event>, e: Event, p: int)
    requires
        0 <= p <= s.len(),
        forall|k: int| p <= k < s.len() ==> (#[trigger] s[k]).tick > e.tick,
        p == 0 || s[p - 1].tick <= e.tick,
    ensures
        insert_by_tick(s, e) == s.insert(p, e),
    decreases s.len(),
{
    if s.len() == 0 {
        assert(s.insert(p, e) =~= seq![e]);
    } else if p == s.len() {
        assert(s.insert(p, e) =~= s.push(e));
    } else {
        assert(s.last().tick > e.tick);
        let d = s.drop_last();
        assert forall|k: int| p <= k < d.len() implies (#[trigger] d[k]).tick > e.tick by {
            assert(d[k] == s[k]);
        }
        if p > 0 {
            assert(d[p - 1] == s[p - 1]);
        }
        lemma_insert_at(d, e, p);
        assert(d.insert(p, e).push(s.last()) =~= s.insert(p, e));
    }
}

/// Puts the events in order of their pulses, keeping the order of events
/// at the same pulse (see [`sort_by_tick`]).
pub fn sort_events(events: &Vec<Event>) -> (r: Vec<Event>)
    ensures
        r@ == sort_by_tick(events@),
        tick_sorted(r@),
        r@.to_multiset() == events@.to_multiset(),
{
    let mut out: Vec<Event> = Vec::new();
    let mut i: usize = 0;
    while i < events.len()
        invariant
            i <= events@.len(),
            out@ == sort_by_tick(events@.take(i as int)),
        decreases events.len() - i,
    {
        let e = events[i];
        proof {
            lemma_sort_by_tick(events@.take(i as int));
        }
        let mut p = out.len();
        while p > 0 && out[p - 1].tick > e.tick
            invariant
                p <= out@.len(),
                tick_sorted(out@),
                forall|k: int| p <= k < out@.len() ==> (#[trigger] out@[k]).tick > e.tick,
            decreases p,
        {
            p = p - 1;
        }
        proof {
            lemma_insert_at(out@, e, p as int);
            assert(events@.take(i + 1).drop_last() =~= events@.take(i as int));
        }
        out.insert(p, e);
        i = i + 1;
    }
    proof {
        assert(events@.take(i as int) =~= events@);
        lemma_sort_by_tick(events@);
    }
    out
}

/// Processes the parts of a bmson chart into timed events.
pub struct BmsonProcessor;

/// Appends `more` to `events`, keeping what was there.
fn append_events(events: &mut Vec<Event>, more: Vec<Event>)
    ensures
        final(events)@ == old(events)@ + more@,
{
    let mut m = more;
    events.append(&mut m);
}

/// The same BGA events appended through `bga_layer_events`.
fn push_layer(evs: &Vec<BGAEvent>, layer: BgaLayer, events: &mut Vec<Event>)
    ensures
        final(events)@ == old(events)@ + bga_event_seq(evs@, layer),
{
    let ghost e0 = events@;
    bga_layer_events(evs, layer, events);
    proof {
        assert forall|i: int| 0 <= i < events@.len() implies #[trigger] events@[i] == (e0 + bga_event_seq(evs@, layer))[i] by {
            if i < e0.len() {
                assert(events@.take(e0.len() as int)[i] == e0[i]);
            } else {
                assert(events@[e0.len() + (i - e0.len())] == bga_event_seq(evs@, layer)[i - e0.len()]);
            }
        }
        assert(events@ =~= e0 + bga_event_seq(evs@, layer));
    }
}

proof fn lemma_map_ticks_bpm(evs: Seq<BpmEvent>, b: u64)
    requires
        forall|i: int| 0 <= i < evs.len() ==> (#[trigger] evs[i]).y <= b,
    ensures
        forall|i: int| 0 <= i < bpm_event_seq(evs).len() ==> (#[trigger] bpm_event_seq(evs)[i]).tick <= b,
{
}

proof fn lemma_map_ticks_scroll(evs: Seq<ScrollEvent>, b: u64)
    requires
        forall|i: int| 0 <= i < evs.len() ==> (#[trigger] evs[i]).y <= b,
    ensures
        forall|i: int| 0 <= i < scroll_event_seq(evs).len() ==> (#[trigger] scroll_event_seq(evs)[i]).tick <= b,
{
}

/// The events before bar lines all lie at or before `b`, when every input
/// pulse does.
proof fn lemma_events_before_bars_ticks(
    sound: Seq<SoundChannel<String>>,
    mines: Seq<MineChannel<String>>,
    keys: Seq<KeyChannel<String>>,
    bpms: Seq<BpmEvent>,
    stops: Seq<StopEvent>,
    scrolls: Seq<ScrollEvent>,
    bga: crate::bmson::BGA<String>,
    layout: Layout,
    b: u64,
)
    requires
        forall|k: int, i: int|
            0 <= k < sound.len() && 0 <= i < sound[k].note_events@.len() ==> (#[trigger] sound[k].note_events@[i]).y <= b,
        forall|k: int, i: int| 0 <= k < mines.len() && 0 <= i < mines[k].notes@.len() ==> (#[trigger] mines[k].notes@[i]).y <= b,
        forall|k: int, i: int| 0 <= k < keys.len() && 0 <= i < keys[k].notes@.len() ==> (#[trigger] keys[k].notes@[i]).y <= b,
        forall|i: int| 0 <= i < bpms.len() ==> (#[trigger] bpms[i]).y <= b,
        forall|i: int| 0 <= i < stops.len() ==> (#[trigger] stops[i]).y <= b,
        forall|i: int| 0 <= i < scrolls.len() ==> (#[trigger] scrolls[i]).y <= b,
        forall|i: int| 0 <= i < bga.bga_events@.len() ==> (#[trigger] bga.bga_events@[i]).y <= b,
        forall|i: int| 0 <= i < bga.layer_events@.len() ==> (#[trigger] bga.layer_events@[i]).y <= b,
        forall|i: int| 0 <= i < bga.poor_events@.len() ==> (#[trigger] bga.poor_events@[i]).y <= b,
    ensures
        max_tick(events_before_bars(sound, mines, keys, bpms, stops, scrolls, bga, layout)) <= b,
{
    let sb = slices_before(sound, sound.len() as int);
    let s1 = sound_events(sound, sound.len() as int, layout, playable_pulses(sound));
    let s2 = mine_events(mines, mines.len() as int, layout, sb);
    let s3 = key_events(keys, keys.len() as int, layout, sb + mines.len());
    let s4 = bpm_event_seq(bpms);
    let s5 = stop_event_seq(stops);
    let s6 = scroll_event_seq(scrolls);
    let s7 = bga_event_seq(bga.bga_events@, BgaLayer::Base);
    let s8 = bga_event_seq(bga.layer_events@, BgaLayer::Layer);
    let s9 = bga_event_seq(bga.poor_events@, BgaLayer::Poor);
    lemma_sound_events_ticks(sound, sound.len() as int, layout, playable_pulses(sound), b);
    lemma_mine_events_ticks(mines, mines.len() as int, layout, sb, b);
    lemma_key_events_ticks(keys, keys.len() as int, layout, sb + mines.len(), b);
    lemma_map_ticks_bpm(bpms, b);
    lemma_map_ticks_scroll(scrolls, b);
    let pre = events_before_bars(sound, mines, keys, bpms, stops, scrolls, bga, layout);
    assert(pre == s1 + s2 + s3 + s4 + s5 + s6 + s7 + s8 + s9);
    assert forall|i: int| 0 <= i < pre.len() implies (#[trigger] pre[i]).tick <= b by {
        let l1 = s1.len() as int;
        let l2 = l1 + s2.len();
        let l3 = l2 + s3.len();
        let l4 = l3 + s4.len();
        let l5 = l4 + s5.len();
        let l6 = l5 + s6.len();
        let l7 = l6 + s7.len();
        let l8 = l7 + s8.len();
        if i < l1 {
            assert(pre[i] == s1[i]);
        } else if i < l2 {
            assert(pre[i] == s2[i - l1]);
        } else if i < l3 {
            assert(pre[i] == s3[i - l2]);
        } else if i < l4 {
            assert(pre[i] == s4[i - l3]);
        } else if i < l5 {
            assert(pre[i] == s5[i - l4]);
        } else if i < l6 {
            assert(pre[i] == s6[i - l5]);
        } else if i < l7 {
            assert(pre[i] == s7[i - l6]);
        } else if i < l8 {
            assert(pre[i] == s8[i - l7]);
        } else {
            assert(pre[i] == s9[i - l8]);
        }
    }
    lemma_max_tick_bound(pre, b);
}

impl BmsonProcessor {
    /// The audio slices and the events of a chart, the events in order of
    /// their pulses, events at the same pulse in the order in which they are
    /// built (see [`sort_by_tick`] and [`chart_events`]): the notes of the sound channels (see
    /// [`process_sound_channels`]; `times[c][i]` is the time of channel
    /// `c`'s `i`-th pulse), the mine channels' notes (see
    /// [`process_mine_channels`]), the key channels' notes (see
    /// [`process_key_channels`]), the tempo changes, the stops, the
    /// scroll-speed changes, the BGA changes of the base, overlay and POOR
    /// layers, and the bar lines (see [`bar_ticks`]).  The slices are those
    /// of the sound channels, then one per mine channel, then one per key
    /// channel.
    pub fn process_events(
        sound: &Vec<SoundChannel<String>>,
        mines: &Vec<MineChannel<String>>,
        keys: &Vec<KeyChannel<String>>,
        bpms: &Vec<BpmEvent>,
        stops: &Vec<StopEvent>,
        scrolls: &Vec<ScrollEvent>,
        bga: &crate::bmson::BGA<String>,
        lines: Option<&Vec<BarLine>>,
        resolution: u64,
        layout: Layout,
        times: &Vec<Vec<u64>>,
    ) -> (r: (Vec<AudioAsset<String>>, Vec<Event>))
        requires
            times@.len() == sound@.len(),
            forall|c: int|
                0 <= c < sound@.len() ==> (#[trigger] times@[c])@.len() == pulse_set(
                    sound@[c].note_events@,
                    false,
                ).len(),
            notes_before(sound@, sound@.len() as int) + mines@.len() + keys@.len() < 0x1_0000_0000,
            lines is None ==> 1 <= resolution,
            lines is None ==> 4 * resolution <= u64::MAX,
            lines is None ==> (forall|k: int, i: int|
                0 <= k < sound@.len() && 0 <= i < sound@[k].note_events@.len() ==> (#[trigger] sound@[k].note_events@[i]).y
                    + 4 * resolution <= u64::MAX),
            lines is None ==> (forall|k: int, i: int|
                0 <= k < mines@.len() && 0 <= i < mines@[k].notes@.len() ==> (#[trigger] mines@[k].notes@[i]).y + 4
                    * resolution <= u64::MAX),
            lines is None ==> (forall|k: int, i: int|
                0 <= k < keys@.len() && 0 <= i < keys@[k].notes@.len() ==> (#[trigger] keys@[k].notes@[i]).y + 4
                    * resolution <= u64::MAX),
            lines is None ==> (forall|i: int| 0 <= i < bpms@.len() ==> (#[trigger] bpms@[i]).y + 4 * resolution <= u64::MAX),
            lines is None ==> (forall|i: int| 0 <= i < stops@.len() ==> (#[trigger] stops@[i]).y + 4 * resolution <= u64::MAX),
            lines is None ==> (forall|i: int| 0 <= i < scrolls@.len() ==> (#[trigger] scrolls@[i]).y + 4 * resolution <= u64::MAX),
            lines is None ==> (forall|i: int| 0 <= i < bga.bga_events@.len() ==> (#[trigger] bga.bga_events@[i]).y + 4 * resolution <= u64::MAX),
            lines is None ==> (forall|i: int| 0 <= i < bga.layer_events@.len() ==> (#[trigger] bga.layer_events@[i]).y + 4 * resolution <= u64::MAX),
            lines is None ==> (forall|i: int| 0 <= i < bga.poor_events@.len() ==> (#[trigger] bga.poor_events@[i]).y + 4 * resolution <= u64::MAX),
        ensures
            r.1@ == sort_by_tick(
                chart_events(
                    sound@,
                    mines@,
                    keys@,
                    bpms@,
                    stops@,
                    scrolls@,
                    *bga,
                    match lines {
                        Some(v) => Some(v@),
                        None => None,
                    },
                    resolution,
                    layout,
                ),
            ),
            tick_sorted(r.1@),
            r.1@.to_multiset() == chart_events(
                sound@,
                mines@,
                keys@,
                bpms@,
                stops@,
                scrolls@,
                *bga,
                match lines {
                    Some(v) => Some(v@),
                    None => None,
                },
                resolution,
                layout,
            ).to_multiset(),
            r.0@.len() == slices_before(sound@, sound@.len() as int) + mines@.len() + keys@.len(),
            forall|c: int, i: int|
                0 <= c < sound@.len() && 0 <= i < sorted_pulses(sound@[c].note_events@).len()
                    ==> (#[trigger] r.0@[slices_before(sound@, c) + i]).path@ == sound@[c].name@
                    && (r.0@[slices_before(sound@, c) + i].start, r.0@[slices_before(sound@, c) + i].duration)
                    == slice_of(sound@[c].note_events@, sorted_pulses(sound@[c].note_events@), times@[c]@, i),
            forall|c: int|
                0 <= c < mines@.len() ==> (#[trigger] r.0@[slices_before(sound@, sound@.len() as int) + c]).path@
                    == mines@[c].name@ && r.0@[slices_before(sound@, sound@.len() as int) + c].start == 0
                    && r.0@[slices_before(sound@, sound@.len() as int) + c].duration is None,
            forall|c: int|
                0 <= c < keys@.len() ==> (#[trigger] r.0@[slices_before(sound@, sound@.len() as int) + mines@.len() + c]).path@
                    == keys@[c].name@ && r.0@[slices_before(sound@, sound@.len() as int) + mines@.len() + c].start == 0
                    && r.0@[slices_before(sound@, sound@.len() as int) + mines@.len() + c].duration is None,
    {
        let playable = collect_playable_pulses(sound);
        proof {
            let v = playable_pulses(sound@);
            assert(strictly_sorted(playable@) && forall|y: u64|
                playable@.contains(y) <==> exists|c: int|
                    0 <= c < sound@.len() && #[trigger] pulse_set(sound@[c].note_events@, true).contains(y));
            assert(playable@.to_set() =~= v.to_set());
            lemma_sorted_unique(playable@, v);
        }
        let (mut assets, mut events) = process_sound_channels(sound, layout, times, &playable);
        let ghost a1 = assets@;
        process_mine_channels(mines, layout, &mut assets, &mut events);
        let ghost a2 = assets@;
        process_key_channels(keys, layout, &mut assets, &mut events);
        proof {
            let sb = slices_before(sound@, sound@.len() as int);
            assert forall|j: int| 0 <= j < a2.len() implies #[trigger] assets@[j] == a2[j] by {
                assert(assets@.take(a2.len() as int)[j] == a2[j]);
            }
            assert forall|j: int| 0 <= j < a1.len() implies #[trigger] a2[j] == a1[j] by {
                assert(a2.take(a1.len() as int)[j] == a1[j]);
            }
            assert forall|c: int, i: int|
                0 <= c < sound@.len() && 0 <= i < sorted_pulses(sound@[c].note_events@).len()
                    implies (#[trigger] assets@[slices_before(sound@, c) + i]).path@ == sound@[c].name@
                    && (assets@[slices_before(sound@, c) + i].start, assets@[slices_before(sound@, c) + i].duration)
                    == slice_of(sound@[c].note_events@, sorted_pulses(sound@[c].note_events@), times@[c]@, i) by {
                lemma_slices_before_mono(sound@, c + 1, sound@.len() as int);
                lemma_slices_before_mono(sound@, 0, c);
                assert(slices_before(sound@, c + 1) == slices_before(sound@, c)
                    + sorted_pulses(sound@[c].note_events@).len());
                assert(assets@[slices_before(sound@, c) + i] == a2[slices_before(sound@, c) + i]);
                assert(a2[slices_before(sound@, c) + i] == a1[slices_before(sound@, c) + i]);
            }
            assert forall|c: int| 0 <= c < mines@.len() implies (#[trigger] assets@[sb + c]).path@
                == mines@[c].name@ && assets@[sb + c].start == 0 && assets@[sb + c].duration is None by {
                assert(assets@[sb + c] == a2[sb + c]);
            }
        }
        append_events(&mut events, bpm_events(bpms));
        append_events(&mut events, stop_events(stops));
        append_events(&mut events, scroll_events(scrolls));
        push_layer(&bga.bga_events, BgaLayer::Base, &mut events);
        push_layer(&bga.layer_events, BgaLayer::Layer, &mut events);
        push_layer(&bga.poor_events, BgaLayer::Poor, &mut events);
        let ghost pre = events@;
        proof {
            assert(pre =~= events_before_bars(sound@, mines@, keys@, bpms@, stops@, scrolls@, *bga, layout));
            if lines is None {
                let b = (u64::MAX - 4 * resolution) as u64;
                lemma_events_before_bars_ticks(sound@, mines@, keys@, bpms@, stops@, scrolls@, *bga, layout, b);
            }
        }
        let last = last_tick(&events);
        let ticks = build_bar_lines(lines, resolution, last);
        let mut j: usize = 0;
        while j < ticks.len()
            invariant
                j <= ticks@.len(),
                events@ == pre + bar_events(ticks@.take(j as int)),
            decreases ticks.len() - j,
        {
            events.push(Event { tick: ticks[j], kind: EventKind::Bar });
            j = j + 1;
            assert(events@ =~= pre + bar_events(ticks@.take(j as int)));
        }
        assert(ticks@.take(j as int) =~= ticks@);
        let sorted = sort_events(&events);
        (assets, sorted)
    }
}

} // verus!
