//! The difficulty levels offered by the menu.
use vstd::prelude::*;

verus! {

#[derive(Clone, Copy, Debug, PartialEq, Eq, Structural)]
pub enum Difficulty {
    Harmless,
    Lenient,
    Standard,
    Violent,
    Brutal,
    UltrakillMustDie,
}

/// The number of difficulties.
pub const DIFFICULTY_COUNT: usize = 6;

/// The position of each difficulty in the menu, from the easiest.
pub open spec fn spec_index(d: Difficulty) -> int {
    match d {
        Difficulty::Harmless => 0,
        Difficulty::Lenient => 1,
        Difficulty::Standard => 2,
        Difficulty::Violent => 3,
        Difficulty::Brutal => 4,
        Difficulty::UltrakillMustDie => 5,
    }
}

/// The difficulty at a menu position below `DIFFICULTY_COUNT`.
pub open spec fn spec_from_index(i: int) -> Difficulty {
    if i == 0 {
        Difficulty::Harmless
    } else if i == 1 {
        Difficulty::Lenient
    } else if i == 2 {
        Difficulty::Standard
    } else if i == 3 {
        Difficulty::Violent
    } else if i == 4 {
        Difficulty::Brutal
    } else {
        Difficulty::UltrakillMustDie
    }
}

pub open spec fn spec_label(d: Difficulty) -> Seq<char> {
    match d {
        Difficulty::Harmless => "HARMLESS"@,
        Difficulty::Lenient => "LENIENT"@,
        Difficulty::Standard => "STANDARD"@,
        Difficulty::Violent => "VIOLENT"@,
        Difficulty::Brutal => "BRUTAL"@,
        Difficulty::UltrakillMustDie => "ULTRAKILL MUST DIE"@,
    }
}

pub open spec fn spec_category(d: Difficulty) -> Seq<char> {
    match d {
        Difficulty::Harmless | Difficulty::Lenient => "ACCESSIBLE"@,
        Difficulty::Standard | Difficulty::Violent => "HARD"@,
        Difficulty::Brutal | Difficulty::UltrakillMustDie => "VERY HARD"@,
    }
}

pub open spec fn spec_description(d: Difficulty) -> Seq<char> {
    match d {
        Difficulty::Harmless => "SLOW ENEMIES, 200 HP, LOW STRESS."@,
        Difficulty::Lenient => "SLOWER ENEMY TIMING, STRICT DAMAGE."@,
        Difficulty::Standard => "BASELINE COMBAT RULES."@,
        Difficulty::Violent => "25% FASTER ENEMY PRESSURE."@,
        Difficulty::Brutal => "50% FASTER ENEMIES AND BRUTAL BEHAVIOR."@,
        Difficulty::UltrakillMustDie => "UNDER CONSTRUCTION."@,
    }
}

impl Difficulty {
    pub fn index(self) -> (i: usize)
        ensures
            i == spec_index(self),
            self == Difficulty::Harmless ==> i == 0,
            self == Difficulty::Lenient ==> i == 1,
            self == Difficulty::Standard ==> i == 2,
            self == Difficulty::Violent ==> i == 3,
            self == Difficulty::Brutal ==> i == 4,
            self == Difficulty::UltrakillMustDie ==> i == 5,
    {
        match self {
            Difficulty::Harmless => 0,
            Difficulty::Lenient => 1,
            Difficulty::Standard => 2,
            Difficulty::Violent => 3,
            Difficulty::Brutal => 4,
            Difficulty::UltrakillMustDie => 5,
        }
    }

    /// The difficulty at menu position `index`; none past the last.
    pub fn from_index(index: usize) -> (res: Option<Difficulty>)
        ensures
            index < DIFFICULTY_COUNT ==> res == Some(spec_from_index(index as int)),
            index >= DIFFICULTY_COUNT ==> res is None,
    {
        match index {
            0 => Some(Difficulty::Harmless),
            1 => Some(Difficulty::Lenient),
            2 => Some(Difficulty::Standard),
            3 => Some(Difficulty::Violent),
            4 => Some(Difficulty::Brutal),
            5 => Some(Difficulty::UltrakillMustDie),
            _ => None,
        }
    }

    pub fn label(self) -> (s: &'static str)
        ensures
            s@ == spec_label(self),
    {
        match self {
            Difficulty::Harmless => "HARMLESS",
            Difficulty::Lenient => "LENIENT",
            Difficulty::Standard => "STANDARD",
            Difficulty::Violent => "VIOLENT",
            Difficulty::Brutal => "BRUTAL",
            Difficulty::UltrakillMustDie => "ULTRAKILL MUST DIE",
        }
    }

    pub fn category(self) -> (s: &'static str)
        ensures
            s@ == spec_category(self),
    {
        match self {
            Difficulty::Harmless | Difficulty::Lenient => "ACCESSIBLE",
            Difficulty::Standard | Difficulty::Violent => "HARD",
            Difficulty::Brutal | Difficulty::UltrakillMustDie => "VERY HARD",
        }
    }

    pub fn description(self) -> (s: &'static str)
        ensures
            s@ == spec_description(self),
    {
        match self {
            Difficulty::Harmless => "SLOW ENEMIES, 200 HP, LOW STRESS.",
            Difficulty::Lenient => "SLOWER ENEMY TIMING, STRICT DAMAGE.",
            Difficulty::Standard => "BASELINE COMBAT RULES.",
            Difficulty::Violent => "25% FASTER ENEMY PRESSURE.",
            Difficulty::Brutal => "50% FASTER ENEMIES AND BRUTAL BEHAVIOR.",
            Difficulty::UltrakillMustDie => "UNDER CONSTRUCTION.",
        }
    }

    /// Every difficulty but the last can be chosen.
    pub fn available(self) -> (b: bool)
        ensures
            b == !(self is UltrakillMustDie),
    {
        !matches!(self, Difficulty::UltrakillMustDie)
    }
}

/// Each difficulty sits at its own menu position, and reading that position back gives it.
pub proof fn lemma_difficulty_index_round_trip(d: Difficulty)
    ensures
        0 <= spec_index(d) < DIFFICULTY_COUNT,
        spec_from_index(spec_index(d)) == d,
{
}

/// Every menu position below the count holds the difficulty whose index it is.
pub proof fn lemma_difficulty_from_index_round_trip(i: int)
    requires
        0 <= i < DIFFICULTY_COUNT,
    ensures
        spec_index(spec_from_index(i)) == i,
{
}

/// Only the hardest difficulty is unavailable, and the difficulties come in pairs of one
/// category, in menu order.
pub proof fn lemma_difficulty_categories(d: Difficulty)
    ensures
        (d is UltrakillMustDie) == (spec_index(d) == DIFFICULTY_COUNT - 1),
        spec_category(d) == spec_category(spec_from_index(spec_index(d) / 2 * 2)),
{
}

} // verus!
