//! Header value types and their text forms: the literal enums of the
//! gameplay and display headers, `#RANK`, `#DIFFICULTY` and `#BASE`.

use vstd::prelude::*;

use crate::error::ParseBmsValueError;
use crate::index::BmsBase;
use crate::text::{dec, parse_int};

verus! {

/// Player count / side layout (`#PLAYER`).
#[derive(Debug, Clone, Copy, PartialEq, Eq, Structural)]
pub enum PlayerMode {
    /// `1` / `SP`: single play.
    Single,
    /// `2` / `CP`: couple play.
    Couple,
    /// `3` / `DP`: double play.
    Double,
    /// `4` / `BP`: battle play.
    Battle,
}

/// The PlayerMode that a header value names, if any (case-sensitive).
pub open spec fn player_mode_of(s: Seq<char>) -> Option<PlayerMode> {
    if s == seq!['1'] || s == seq!['S', 'P'] || s == seq!['s', 'p'] || s == seq!['S', 'p'] {
        Some(PlayerMode::Single)
    } else if s == seq!['2'] || s == seq!['C', 'P'] || s == seq!['c', 'p'] || s == seq!['C', 'p'] {
        Some(PlayerMode::Couple)
    } else if s == seq!['3'] || s == seq!['D', 'P'] || s == seq!['d', 'p'] || s == seq!['D', 'p'] {
        Some(PlayerMode::Double)
    } else if s == seq!['4'] || s == seq!['B', 'P'] || s == seq!['b', 'p'] || s == seq!['B', 'p'] {
        Some(PlayerMode::Battle)
    } else {
        None
    }
}

/// The text that a PlayerMode is written as (its first spelling).
pub open spec fn player_mode_code(m: PlayerMode) -> Seq<char> {
    match m {
        PlayerMode::Single => seq!['1'],
        PlayerMode::Couple => seq!['2'],
        PlayerMode::Double => seq!['3'],
        PlayerMode::Battle => seq!['4'],
    }
}

impl PlayerMode {
    /// Reads `cs[from..to]` as a PlayerMode.
    pub fn from_chars(cs: &[char], from: usize, to: usize) -> (r: Option<Self>)
        requires
            from <= to <= cs@.len(),
        ensures
            r == player_mode_of(cs@.subrange(from as int, to as int)),
    {
        if crate::text::range_is_char(cs, from, to, '1') || crate::text::range_eq(cs, from, to, &['S', 'P']) || crate::text::range_eq(cs, from, to, &['s', 'p']) || crate::text::range_eq(cs, from, to, &['S', 'p']) {
            Some(PlayerMode::Single)
        } else if crate::text::range_is_char(cs, from, to, '2') || crate::text::range_eq(cs, from, to, &['C', 'P']) || crate::text::range_eq(cs, from, to, &['c', 'p']) || crate::text::range_eq(cs, from, to, &['C', 'p']) {
            Some(PlayerMode::Couple)
        } else if crate::text::range_is_char(cs, from, to, '3') || crate::text::range_eq(cs, from, to, &['D', 'P']) || crate::text::range_eq(cs, from, to, &['d', 'p']) || crate::text::range_eq(cs, from, to, &['D', 'p']) {
            Some(PlayerMode::Double)
        } else if crate::text::range_is_char(cs, from, to, '4') || crate::text::range_eq(cs, from, to, &['B', 'P']) || crate::text::range_eq(cs, from, to, &['b', 'p']) || crate::text::range_eq(cs, from, to, &['B', 'p']) {
            Some(PlayerMode::Battle)
        } else {
            None
        }
    }

    /// Parses a header value.
    pub fn parse_str(s: &str) -> (r: Result<Self, ParseBmsValueError>)
        ensures
            r is Ok <==> player_mode_of(s@) is Some,
            r matches Ok(m) ==> player_mode_of(s@) == Some(m),
            r matches Err(e) ==> e.0@ == "1-4, SP, CP, DP or BP"@,
    {
        let cs = crate::text::chars_of(s);
        proof {
            assert(cs@.subrange(0, cs@.len() as int) =~= s@);
        }
        match PlayerMode::from_chars(&cs, 0, cs.len()) {
            Some(m) => Ok(m),
            None => Err(ParseBmsValueError("1-4, SP, CP, DP or BP")),
        }
    }

    /// The value as written in a header (its first spelling).
    pub fn to_string(&self) -> (r: String)
        ensures
            r@ == player_mode_code(*self),
    {
        let r = match self {
            PlayerMode::Single => crate::text::string_from(&['1']),
            PlayerMode::Couple => crate::text::string_from(&['2']),
            PlayerMode::Double => crate::text::string_from(&['3']),
            PlayerMode::Battle => crate::text::string_from(&['4']),
        };
        r
    }
}

/// Writing a PlayerMode and reading it back gives the same value.
pub proof fn lemma_player_mode_of_roundtrip(m: PlayerMode)
    ensures
        player_mode_of(player_mode_code(m)) == Some(m),
{
    match m {
        PlayerMode::Single => {
        },
        PlayerMode::Couple => {
            assert(seq!['2'][0] != seq!['1'][0]);
        },
        PlayerMode::Double => {
            assert(seq!['3'][0] != seq!['1'][0]);
            assert(seq!['3'][0] != seq!['2'][0]);
        },
        PlayerMode::Battle => {
            assert(seq!['4'][0] != seq!['1'][0]);
            assert(seq!['4'][0] != seq!['2'][0]);
            assert(seq!['4'][0] != seq!['3'][0]);
        },
    }
}

impl core::str::FromStr for PlayerMode {
    type Err = ParseBmsValueError;

    fn from_str(s: &str) -> (r: Result<Self, Self::Err>)
        ensures
            r is Ok <==> player_mode_of(s@) is Some,
            r matches Ok(m) ==> player_mode_of(s@) == Some(m),
            r matches Err(e) ==> e.0@ == "1-4, SP, CP, DP or BP"@,
    {
        PlayerMode::parse_str(s)
    }
}

/// Long-note encoding (`#LNTYPE`).
#[derive(Debug, Clone, Copy, PartialEq, Eq, Structural)]
pub enum LnType {
    /// `1`: RDM-style long notes on channels 51–69.
    Type1,
    /// `2`: MGQ-style long notes.
    Type2,
}

/// The LnType that a header value names, if any (case-sensitive).
pub open spec fn ln_type_of(s: Seq<char>) -> Option<LnType> {
    if s == seq!['1'] || s == seq!['0', '1'] {
        Some(LnType::Type1)
    } else if s == seq!['2'] || s == seq!['0', '2'] {
        Some(LnType::Type2)
    } else {
        None
    }
}

/// The text that a LnType is written as (its first spelling).
pub open spec fn ln_type_code(m: LnType) -> Seq<char> {
    match m {
        LnType::Type1 => seq!['1'],
        LnType::Type2 => seq!['2'],
    }
}

impl LnType {
    /// Reads `cs[from..to]` as a LnType.
    pub fn from_chars(cs: &[char], from: usize, to: usize) -> (r: Option<Self>)
        requires
            from <= to <= cs@.len(),
        ensures
            r == ln_type_of(cs@.subrange(from as int, to as int)),
    {
        if crate::text::range_is_char(cs, from, to, '1') || crate::text::range_eq(cs, from, to, &['0', '1']) {
            Some(LnType::Type1)
        } else if crate::text::range_is_char(cs, from, to, '2') || crate::text::range_eq(cs, from, to, &['0', '2']) {
            Some(LnType::Type2)
        } else {
            None
        }
    }

    /// Parses a header value.
    pub fn parse_str(s: &str) -> (r: Result<Self, ParseBmsValueError>)
        ensures
            r is Ok <==> ln_type_of(s@) is Some,
            r matches Ok(m) ==> ln_type_of(s@) == Some(m),
            r matches Err(e) ==> e.0@ == "1 or 2"@,
    {
        let cs = crate::text::chars_of(s);
        proof {
            assert(cs@.subrange(0, cs@.len() as int) =~= s@);
        }
        match LnType::from_chars(&cs, 0, cs.len()) {
            Some(m) => Ok(m),
            None => Err(ParseBmsValueError("1 or 2")),
        }
    }

    /// The value as written in a header (its first spelling).
    pub fn to_string(&self) -> (r: String)
        ensures
            r@ == ln_type_code(*self),
    {
        let r = match self {
            LnType::Type1 => crate::text::string_from(&['1']),
            LnType::Type2 => crate::text::string_from(&['2']),
        };
        r
    }
}

/// Writing a LnType and reading it back gives the same value.
pub proof fn lemma_ln_type_of_roundtrip(m: LnType)
    ensures
        ln_type_of(ln_type_code(m)) == Some(m),
{
    match m {
        LnType::Type1 => {
        },
        LnType::Type2 => {
            assert(seq!['2'][0] != seq!['1'][0]);
        },
    }
}

impl core::str::FromStr for LnType {
    type Err = ParseBmsValueError;

    fn from_str(s: &str) -> (r: Result<Self, Self::Err>)
        ensures
            r is Ok <==> ln_type_of(s@) is Some,
            r matches Ok(m) ==> ln_type_of(s@) == Some(m),
            r matches Err(e) ==> e.0@ == "1 or 2"@,
    {
        LnType::parse_str(s)
    }
}

/// Long-note judging (`#LNMODE`).
#[derive(Debug, Clone, Copy, PartialEq, Eq, Structural)]
pub enum LnMode {
    /// `1`: LN, the end needs no release timing.
    Ln,
    /// `2`: CN, the end is judged.
    Cn,
    /// `3`: HCN, held with a continuous gauge effect.
    Hcn,
}

/// The LnMode that a header value names, if any (case-sensitive).
pub open spec fn ln_mode_of(s: Seq<char>) -> Option<LnMode> {
    if s == seq!['1'] || s == seq!['0', '1'] {
        Some(LnMode::Ln)
    } else if s == seq!['2'] || s == seq!['0', '2'] {
        Some(LnMode::Cn)
    } else if s == seq!['3'] || s == seq!['0', '3'] {
        Some(LnMode::Hcn)
    } else {
        None
    }
}

/// The text that a LnMode is written as (its first spelling).
pub open spec fn ln_mode_code(m: LnMode) -> Seq<char> {
    match m {
        LnMode::Ln => seq!['1'],
        LnMode::Cn => seq!['2'],
        LnMode::Hcn => seq!['3'],
    }
}

impl LnMode {
    /// Reads `cs[from..to]` as a LnMode.
    pub fn from_chars(cs: &[char], from: usize, to: usize) -> (r: Option<Self>)
        requires
            from <= to <= cs@.len(),
        ensures
            r == ln_mode_of(cs@.subrange(from as int, to as int)),
    {
        if crate::text::range_is_char(cs, from, to, '1') || crate::text::range_eq(cs, from, to, &['0', '1']) {
            Some(LnMode::Ln)
        } else if crate::text::range_is_char(cs, from, to, '2') || crate::text::range_eq(cs, from, to, &['0', '2']) {
            Some(LnMode::Cn)
        } else if crate::text::range_is_char(cs, from, to, '3') || crate::text::range_eq(cs, from, to, &['0', '3']) {
            Some(LnMode::Hcn)
        } else {
            None
        }
    }

    /// Parses a header value.
    pub fn parse_str(s: &str) -> (r: Result<Self, ParseBmsValueError>)
        ensures
            r is Ok <==> ln_mode_of(s@) is Some,
            r matches Ok(m) ==> ln_mode_of(s@) == Some(m),
            r matches Err(e) ==> e.0@ == "1, 2 or 3"@,
    {
        let cs = crate::text::chars_of(s);
        proof {
            assert(cs@.subrange(0, cs@.len() as int) =~= s@);
        }
        match LnMode::from_chars(&cs, 0, cs.len()) {
            Some(m) => Ok(m),
            None => Err(ParseBmsValueError("1, 2 or 3")),
        }
    }

    /// The value as written in a header (its first spelling).
    pub fn to_string(&self) -> (r: String)
        ensures
            r@ == ln_mode_code(*self),
    {
        let r = match self {
            LnMode::Ln => crate::text::string_from(&['1']),
            LnMode::Cn => crate::text::string_from(&['2']),
            LnMode::Hcn => crate::text::string_from(&['3']),
        };
        r
    }
}

/// Writing a LnMode and reading it back gives the same value.
pub proof fn lemma_ln_mode_of_roundtrip(m: LnMode)
    ensures
        ln_mode_of(ln_mode_code(m)) == Some(m),
{
    match m {
        LnMode::Ln => {
        },
        LnMode::Cn => {
            assert(seq!['2'][0] != seq!['1'][0]);
        },
        LnMode::Hcn => {
            assert(seq!['3'][0] != seq!['1'][0]);
            assert(seq!['3'][0] != seq!['2'][0]);
        },
    }
}

impl core::str::FromStr for LnMode {
    type Err = ParseBmsValueError;

    fn from_str(s: &str) -> (r: Result<Self, Self::Err>)
        ensures
            r is Ok <==> ln_mode_of(s@) is Some,
            r matches Ok(m) ==> ln_mode_of(s@) == Some(m),
            r matches Err(e) ==> e.0@ == "1, 2 or 3"@,
    {
        LnMode::parse_str(s)
    }
}

/// How the POOR BGA is shown (`#POORBGA`).
#[derive(Debug, Clone, Copy, PartialEq, Eq, Structural)]
pub enum PoorBgaMode {
    /// `0`: the default behaviour.
    Default,
    /// `1`: overlaid on the base layer.
    Overlay,
    /// `2`: not shown.
    Hidden,
}

/// The PoorBgaMode that a header value names, if any (case-sensitive).
pub open spec fn poor_bga_mode_of(s: Seq<char>) -> Option<PoorBgaMode> {
    if s == seq!['0'] {
        Some(PoorBgaMode::Default)
    } else if s == seq!['1'] {
        Some(PoorBgaMode::Overlay)
    } else if s == seq!['2'] {
        Some(PoorBgaMode::Hidden)
    } else {
        None
    }
}

/// The text that a PoorBgaMode is written as (its first spelling).
pub open spec fn poor_bga_mode_code(m: PoorBgaMode) -> Seq<char> {
    match m {
        PoorBgaMode::Default => seq!['0'],
        PoorBgaMode::Overlay => seq!['1'],
        PoorBgaMode::Hidden => seq!['2'],
    }
}

impl PoorBgaMode {
    /// Reads `cs[from..to]` as a PoorBgaMode.
    pub fn from_chars(cs: &[char], from: usize, to: usize) -> (r: Option<Self>)
        requires
            from <= to <= cs@.len(),
        ensures
            r == poor_bga_mode_of(cs@.subrange(from as int, to as int)),
    {
        if crate::text::range_is_char(cs, from, to, '0') {
            Some(PoorBgaMode::Default)
        } else if crate::text::range_is_char(cs, from, to, '1') {
            Some(PoorBgaMode::Overlay)
        } else if crate::text::range_is_char(cs, from, to, '2') {
            Some(PoorBgaMode::Hidden)
        } else {
            None
        }
    }

    /// Parses a header value.
    pub fn parse_str(s: &str) -> (r: Result<Self, ParseBmsValueError>)
        ensures
            r is Ok <==> poor_bga_mode_of(s@) is Some,
            r matches Ok(m) ==> poor_bga_mode_of(s@) == Some(m),
            r matches Err(e) ==> e.0@ == "0, 1 or 2"@,
    {
        let cs = crate::text::chars_of(s);
        proof {
            assert(cs@.subrange(0, cs@.len() as int) =~= s@);
        }
        match PoorBgaMode::from_chars(&cs, 0, cs.len()) {
            Some(m) => Ok(m),
            None => Err(ParseBmsValueError("0, 1 or 2")),
        }
    }

    /// The value as written in a header (its first spelling).
    pub fn to_string(&self) -> (r: String)
        ensures
            r@ == poor_bga_mode_code(*self),
    {
        let r = match self {
            PoorBgaMode::Default => crate::text::string_from(&['0']),
            PoorBgaMode::Overlay => crate::text::string_from(&['1']),
            PoorBgaMode::Hidden => crate::text::string_from(&['2']),
        };
        r
    }
}

/// Writing a PoorBgaMode and reading it back gives the same value.
pub proof fn lemma_poor_bga_mode_of_roundtrip(m: PoorBgaMode)
    ensures
        poor_bga_mode_of(poor_bga_mode_code(m)) == Some(m),
{
    match m {
        PoorBgaMode::Default => {
        },
        PoorBgaMode::Overlay => {
            assert(seq!['1'][0] != seq!['0'][0]);
        },
        PoorBgaMode::Hidden => {
            assert(seq!['2'][0] != seq!['0'][0]);
            assert(seq!['2'][0] != seq!['1'][0]);
        },
    }
}

impl core::str::FromStr for PoorBgaMode {
    type Err = ParseBmsValueError;

    fn from_str(s: &str) -> (r: Result<Self, Self::Err>)
        ensures
            r is Ok <==> poor_bga_mode_of(s@) is Some,
            r matches Ok(m) ==> poor_bga_mode_of(s@) == Some(m),
            r matches Err(e) ==> e.0@ == "0, 1 or 2"@,
    {
        PoorBgaMode::parse_str(s)
    }
}

/// The character set that a `#BASE` value names: `16`, `36` or `62`.
pub open spec fn bms_base_of(s: Seq<char>) -> Option<BmsBase> {
    if s == seq!['1', '6'] {
        Some(BmsBase::Base16)
    } else if s == seq!['3', '6'] {
        Some(BmsBase::Base36)
    } else if s == seq!['6', '2'] {
        Some(BmsBase::Base62)
    } else {
        None
    }
}

/// Reads `cs[from..to]` as a `#BASE` value.
pub fn bms_base_from_chars(cs: &[char], from: usize, to: usize) -> (r: Option<BmsBase>)
    requires
        from <= to <= cs@.len(),
    ensures
        r == bms_base_of(cs@.subrange(from as int, to as int)),
{
    if crate::text::range_eq(cs, from, to, &['1', '6']) {
        Some(BmsBase::Base16)
    } else if crate::text::range_eq(cs, from, to, &['3', '6']) {
        Some(BmsBase::Base36)
    } else if crate::text::range_eq(cs, from, to, &['6', '2']) {
        Some(BmsBase::Base62)
    } else {
        None
    }
}

/// Judge difficulty (`#RANK`).  Values outside 0–4 are kept as `Other`.
#[derive(Debug, Clone, Copy, PartialEq, Eq, Structural)]
pub enum Rank {
    /// `0`: very hard.
    VeryHard,
    /// `1`: hard.
    Hard,
    /// `2`: normal.
    Normal,
    /// `3`: easy.
    Easy,
    /// `4`: very easy.
    VeryEasy,
    /// Any other value.
    Other(u8),
}

/// The rank that a number denotes.
pub open spec fn rank_from_value(v: u8) -> Rank {
    if v == 0 {
        Rank::VeryHard
    } else if v == 1 {
        Rank::Hard
    } else if v == 2 {
        Rank::Normal
    } else if v == 3 {
        Rank::Easy
    } else if v == 4 {
        Rank::VeryEasy
    } else {
        Rank::Other(v)
    }
}

/// The number of a rank.
pub open spec fn rank_value(r: Rank) -> u8 {
    match r {
        Rank::VeryHard => 0,
        Rank::Hard => 1,
        Rank::Normal => 2,
        Rank::Easy => 3,
        Rank::VeryEasy => 4,
        Rank::Other(n) => n,
    }
}

/// The rank that a header value denotes: a `u8` in decimal.
pub open spec fn rank_of(s: Seq<char>) -> Option<Rank> {
    match parse_int(s, false, 0, 255) {
        Some(v) => Some(rank_from_value(v as u8)),
        None => None,
    }
}

impl Rank {
    /// Reads `cs[from..to]` as a rank.
    pub fn from_chars(cs: &[char], from: usize, to: usize) -> (r: Option<Self>)
        requires
            from <= to <= cs@.len(),
        ensures
            r == rank_of(cs@.subrange(from as int, to as int)),
    {
        match crate::text::parse_unsigned(cs, from, to, 255) {
            Some(v) => {
                let v = v as u8;
                Some(
                    if v == 0 {
                        Rank::VeryHard
                    } else if v == 1 {
                        Rank::Hard
                    } else if v == 2 {
                        Rank::Normal
                    } else if v == 3 {
                        Rank::Easy
                    } else if v == 4 {
                        Rank::VeryEasy
                    } else {
                        Rank::Other(v)
                    },
                )
            },
            None => None,
        }
    }

    /// Parses a `#RANK` value; `None` when it is not a `u8`.
    pub fn parse_str(s: &str) -> (r: Option<Self>)
        ensures
            r == rank_of(s@),
    {
        let cs = crate::text::chars_of(s);
        proof {
            assert(cs@.subrange(0, cs@.len() as int) =~= s@);
        }
        Rank::from_chars(&cs, 0, cs.len())
    }

    /// The rank's number in decimal.
    pub fn to_string(&self) -> (r: String)
        ensures
            r@ == dec(rank_value(*self) as nat),
    {
        let v: u8 = match self {
            Rank::VeryHard => 0,
            Rank::Hard => 1,
            Rank::Normal => 2,
            Rank::Easy => 3,
            Rank::VeryEasy => 4,
            Rank::Other(n) => *n,
        };
        let cs = crate::text::fmt_u64(v as u64);
        crate::text::string_from(&cs)
    }
}

/// Writing a rank and reading it back gives the same number; a standard
/// value (0–4) gives back the same rank.
pub proof fn lemma_rank_roundtrip(r: Rank)
    ensures
        rank_of(dec(rank_value(r) as nat)) matches Some(r2) && rank_value(r2) == rank_value(r),
        !(r is Other) ==> rank_of(dec(rank_value(r) as nat)) == Some(r),
{
    crate::text::lemma_dec_parses(rank_value(r) as nat, 0, 255, false);
}

impl core::str::FromStr for Rank {
    type Err = ();

    fn from_str(s: &str) -> (r: Result<Self, Self::Err>)
        ensures
            match rank_of(s@) {
                Some(m) => r == Ok::<Self, ()>(m),
                None => r == Err::<Self, ()>(()),
            },
    {
        match Rank::parse_str(s) {
            Some(r) => Ok(r),
            None => Err(()),
        }
    }
}

/// Chart difficulty (`#DIFFICULTY`), from 1 to 5.
#[derive(Debug, Clone, Copy, PartialEq, Eq)]
pub struct DifficultyLevel(u8);

/// Returned when a `#DIFFICULTY` value is not a number from 1 to 5; holds
/// the input.
#[derive(Debug, Clone, PartialEq, Eq)]
pub struct ParseDifficultyError(pub String);

/// The difficulty that a header value denotes: a `u8` from 1 to 5.
pub open spec fn difficulty_of(s: Seq<char>) -> Option<u8> {
    match parse_int(s, false, 0, 255) {
        Some(v) => if 1 <= v <= 5 {
            Some(v as u8)
        } else {
            None
        },
        None => None,
    }
}

impl DifficultyLevel {
    #[verifier::type_invariant]
    closed spec fn inv(self) -> bool {
        1 <= self.0 <= 5
    }

    /// The level's number.
    pub closed spec fn value(self) -> u8 {
        self.0
    }

    /// The level with number `v`.
    pub closed spec fn level(v: u8) -> DifficultyLevel {
        DifficultyLevel(v)
    }

    pub proof fn lemma_level(v: u8)
        ensures
            DifficultyLevel::level(v).value() == v,
    {
    }

    pub proof fn lemma_value_level(d: DifficultyLevel)
        ensures
            DifficultyLevel::level(d.value()) == d,
    {
    }

    /// The level's number, from 1 to 5.
    pub fn get(&self) -> (r: u8)
        ensures
            r == self.value(),
            1 <= r <= 5,
    {
        proof {
            use_type_invariant(self);
        }
        self.0
    }

    /// Reads `cs[from..to]` as a difficulty level.
    pub fn from_chars(cs: &[char], from: usize, to: usize) -> (r: Option<Self>)
        requires
            from <= to <= cs@.len(),
        ensures
            r == match difficulty_of(cs@.subrange(from as int, to as int)) {
                Some(v) => Some(DifficultyLevel::level(v)),
                None => None,
            },
    {
        match crate::text::parse_unsigned(cs, from, to, 255) {
            Some(v) => if 1 <= v && v <= 5 {
                Some(DifficultyLevel(v as u8))
            } else {
                None
            },
            None => None,
        }
    }

    /// Parses a `#DIFFICULTY` value.
    pub fn parse_str(s: &str) -> (r: Result<Self, ParseDifficultyError>)
        ensures
            match difficulty_of(s@) {
                Some(v) => r matches Ok(d) && d.value() == v,
                None => r matches Err(e) && e.0@ == s@,
            },
    {
        let cs = crate::text::chars_of(s);
        proof {
            assert(cs@.subrange(0, cs@.len() as int) =~= s@);
        }
        match DifficultyLevel::from_chars(&cs, 0, cs.len()) {
            Some(d) => {
                proof {
                    DifficultyLevel::lemma_level(d.value());
                }
                Ok(d)
            },
            None => Err(ParseDifficultyError(s.to_owned())),
        }
    }

    /// The level's number in decimal.
    pub fn to_string(&self) -> (r: String)
        ensures
            r@ == dec(self.value() as nat),
    {
        let cs = crate::text::fmt_u64(self.0 as u64);
        crate::text::string_from(&cs)
    }
}

impl core::str::FromStr for DifficultyLevel {
    type Err = ParseDifficultyError;

    fn from_str(s: &str) -> (r: Result<Self, Self::Err>)
        ensures
            match difficulty_of(s@) {
                Some(v) => r matches Ok(d) && d.value() == v,
                None => r matches Err(e) && e.0@ == s@,
            },
    {
        DifficultyLevel::parse_str(s)
    }
}

impl crate::error::IntoTokensError for ParseDifficultyError {
    /// Becomes `OutOfRange`, expecting `1-5`.
    fn into_error(self, context: &'static str, value: String) -> (r: crate::error::BmsTokenizeError<String>)
        ensures
            r == (crate::error::BmsTokenizeError::OutOfRange { context, value, expected: "1-5" }),
    {
        crate::error::BmsTokenizeError::OutOfRange { context, value, expected: "1-5" }
    }
}

impl ParseDifficultyError {
    /// The message of this error.
    pub fn to_string(&self) -> (r: String)
        ensures
            r@ == seq!['i', 'n', 'v', 'a', 'l', 'i', 'd', ' ', '#', 'D', 'I', 'F', 'F', 'I', 'C', 'U', 'L', 'T', 'Y', ' ', 'v', 'a', 'l', 'u', 'e', ':', ' '] + self.0@ + seq![' ', '(', 'e', 'x', 'p', 'e', 'c', 't', 'e', 'd', ' ', '1', '-', '5', ')'],
    {
        let mut v: Vec<char> = Vec::new();
        crate::text::extend_chars(&mut v, &['i', 'n', 'v', 'a', 'l', 'i', 'd', ' ', '#', 'D', 'I', 'F', 'F', 'I', 'C', 'U', 'L', 'T', 'Y', ' ', 'v', 'a', 'l', 'u', 'e', ':', ' ']);
        let inner = crate::text::chars_of(self.0.as_str());
        crate::text::extend_chars(&mut v, &inner);
        crate::text::extend_chars(&mut v, &[' ', '(', 'e', 'x', 'p', 'e', 'c', 't', 'e', 'd', ' ', '1', '-', '5', ')']);
        crate::text::string_from(&v)
    }
}

} // verus!
