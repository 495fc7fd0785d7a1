//! The K-12 spiral understanding axis, mastery layers and curriculum bands.
use vstd::prelude::*;

use crate::text::{decimal, push_decimal, push_str, string_of};

verus! {

/// Maximum level number (Grade 12).
pub const MAX_LEVEL: u8 = 12;

/// Total levels per cycle (K + 12 grades).
pub const LEVELS_PER_CYCLE: u16 = 13;

/// The four mastery layers mapped to K-12 understanding levels.
#[derive(Debug, Clone, Copy, PartialEq, Eq, Hash, Structural)]
pub enum MasteryLayer {
    Unknown,
    Aware,
    Learning,
    Known,
}

/// The mastery layer of a K-12 level.
pub open spec fn layer_of(level: u8) -> MasteryLayer {
    if level == 0 {
        MasteryLayer::Unknown
    } else if level <= 3 {
        MasteryLayer::Aware
    } else if level <= 6 {
        MasteryLayer::Learning
    } else {
        MasteryLayer::Known
    }
}

impl MasteryLayer {
    pub open spec fn level_value(self) -> u8 {
        match self {
            MasteryLayer::Unknown => 0,
            MasteryLayer::Aware => 3,
            MasteryLayer::Learning => 6,
            MasteryLayer::Known => 12,
        }
    }

    pub open spec fn state_text(self) -> Seq<char> {
        match self {
            MasteryLayer::Unknown => "Unknown"@,
            MasteryLayer::Aware => "Aware"@,
            MasteryLayer::Learning => "Learning"@,
            MasteryLayer::Known => "Known"@,
        }
    }

    /// The K-12 level corresponding to this mastery layer.
    pub fn level(self) -> (r: u8)
        ensures
            r == self.level_value(),
    {
        match self {
            MasteryLayer::Unknown => 0,
            MasteryLayer::Aware => 3,
            MasteryLayer::Learning => 6,
            MasteryLayer::Known => 12,
        }
    }

    /// The human-readable state name for this layer.
    pub fn state(self) -> (r: &'static str)
        ensures
            r@ == self.state_text(),
    {
        match self {
            MasteryLayer::Unknown => "Unknown",
            MasteryLayer::Aware => "Aware",
            MasteryLayer::Learning => "Learning",
            MasteryLayer::Known => "Known",
        }
    }

    /// Derive the mastery layer from a K-12 level.
    pub fn from_level(level: u8) -> (r: Self)
        ensures
            r == layer_of(level),
    {
        match level {
            0 => MasteryLayer::Unknown,
            1..=3 => MasteryLayer::Aware,
            4..=6 => MasteryLayer::Learning,
            _ => MasteryLayer::Known,
        }
    }

    /// The display form `"{state} ({level})"`.
    pub fn to_string(self) -> (r: String)
        ensures
            r@ == self.state_text() + " ("@ + decimal(self.level_value() as nat) + ")"@,
    {
        let mut v: Vec<char> = Vec::new();
        push_str(&mut v, self.state());
        push_str(&mut v, " (");
        push_decimal(&mut v, self.level() as u64);
        push_str(&mut v, ")");
        string_of(&v)
    }
}

/// The K-12 Spiral Understanding Axis for a single domain.
#[derive(Debug, Clone, Copy, PartialEq, Eq, Hash, Structural)]
pub struct UnderstandingAxis {
    pub level: u8,
    pub cycle: u8,
}

/// One `advance` step: past level 12 the axis wraps to level 0 of the next cycle.
pub open spec fn advance_step(a: UnderstandingAxis) -> UnderstandingAxis {
    if a.level >= 12 {
        UnderstandingAxis { level: 0, cycle: (a.cycle + 1) as u8 }
    } else {
        UnderstandingAxis { level: (a.level + 1) as u8, cycle: a.cycle }
    }
}

/// `n` advance steps from `a`.
pub open spec fn advanced(a: UnderstandingAxis, n: nat) -> UnderstandingAxis
    decreases n,
{
    if n == 0 {
        a
    } else {
        advanced(advance_step(a), (n - 1) as nat)
    }
}

/// The step out of `a` does not push the cycle past 255.
pub open spec fn step_fits(a: UnderstandingAxis) -> bool {
    !(a.level >= 12 && a.cycle == 255)
}

/// None of `n` successive steps from `a` pushes the cycle past 255.
pub open spec fn steps_fit(a: UnderstandingAxis, n: nat) -> bool
    decreases n,
{
    n == 0 || (step_fits(a) && steps_fit(advance_step(a), (n - 1) as nat))
}

pub open spec fn level_name_text(level: u8) -> Seq<char> {
    if level == 0 {
        "Kindergarten"@
    } else if level == 1 {
        "Grade 1"@
    } else if level == 2 {
        "Grade 2"@
    } else if level == 3 {
        "Grade 3"@
    } else if level == 4 {
        "Grade 4"@
    } else if level == 5 {
        "Grade 5"@
    } else if level == 6 {
        "Grade 6"@
    } else if level == 7 {
        "Grade 7"@
    } else if level == 8 {
        "Grade 8"@
    } else if level == 9 {
        "Grade 9"@
    } else if level == 10 {
        "Grade 10"@
    } else if level == 11 {
        "Grade 11"@
    } else if level == 12 {
        "Grade 12"@
    } else {
        "Beyond"@
    }
}

pub open spec fn band_text(level: u8) -> Seq<char> {
    if level == 0 {
        "Foundation"@
    } else if level <= 3 {
        "Elementary"@
    } else if level <= 6 {
        "Intermediate"@
    } else if level <= 9 {
        "Advanced"@
    } else if level <= 12 {
        "Mastery"@
    } else {
        "Transcendent"@
    }
}

impl UnderstandingAxis {
    /// Linear depth: `cycle × 13 + level`.
    pub open spec fn depth_value(self) -> int {
        self.cycle * 13 + self.level
    }

    /// The full description `describe` renders.
    pub open spec fn description(self) -> Seq<char> {
        let layer = layer_of(self.level);
        "Cycle "@ + decimal(self.cycle as nat) + " "@ + level_name_text(self.level) + " ("@
            + band_text(self.level) + ") — "@ + layer.state_text() + " ("@ + decimal(
            layer.level_value() as nat,
        ) + ")"@
    }

    /// The short description `describe_layer` renders.
    pub open spec fn layer_description(self) -> Seq<char> {
        let layer = layer_of(self.level);
        layer.state_text() + " ("@ + decimal(layer.level_value() as nat) + ") — Level "@ + decimal(
            self.level as nat,
        ) + "/"@ + decimal(12)
    }

    /// Create a new axis at the given level (capped at 12) and cycle.
    pub fn new(level: u8, cycle: u8) -> (r: Self)
        ensures
            r.level == (if level < 12 {
                level
            } else {
                12
            }),
            r.cycle == cycle,
    {
        UnderstandingAxis { level: if level < MAX_LEVEL { level } else { MAX_LEVEL }, cycle }
    }

    /// Kindergarten — the starting point.
    pub fn kindergarten() -> (r: Self)
        ensures
            r.level == 0 && r.cycle == 0,
    {
        UnderstandingAxis { level: 0, cycle: 0 }
    }

    /// Linear depth value: `depth = cycle × 13 + level`.
    pub fn depth(self) -> (r: u16)
        ensures
            r == self.depth_value(),
    {
        self.cycle as u16 * LEVELS_PER_CYCLE + self.level as u16
    }

    /// Advance one level. If at level 12, loop to level 0 at next cycle.
    pub fn advance(&mut self)
        requires
            step_fits(*old(self)),
        ensures
            *final(self) == advance_step(*old(self)),
    {
        if self.level >= MAX_LEVEL {
            self.level = 0;
            self.cycle = self.cycle + 1;
        } else {
            self.level = self.level + 1;
        }
    }

    /// Advance multiple levels.
    pub fn advance_by(&mut self, steps: u8)
        requires
            steps_fit(*old(self), steps as nat),
        ensures
            *final(self) == advanced(*old(self), steps as nat),
    {
        let ghost start = *self;
        let mut k: u8 = 0;
        while k < steps
            invariant
                k <= steps,
                advanced(start, k as nat) == *self,
                steps_fit(*self, (steps - k) as nat),
                advanced(*self, (steps - k) as nat) == advanced(start, steps as nat),
            decreases steps - k,
        {
            proof {
                lemma_advanced_split(start, k as nat);
            }
            self.advance();
            k = k + 1;
        }
    }

    /// Get the next axis state without mutating.
    pub fn next(self) -> (r: Self)
        requires
            step_fits(self),
        ensures
            r == advance_step(self),
    {
        let mut next = self;
        next.advance();
        next
    }

    /// Human-readable level name.
    pub fn level_name(self) -> (r: &'static str)
        ensures
            r@ == level_name_text(self.level),
    {
        match self.level {
            0 => "Kindergarten",
            1 => "Grade 1",
            2 => "Grade 2",
            3 => "Grade 3",
            4 => "Grade 4",
            5 => "Grade 5",
            6 => "Grade 6",
            7 => "Grade 7",
            8 => "Grade 8",
            9 => "Grade 9",
            10 => "Grade 10",
            11 => "Grade 11",
            12 => "Grade 12",
            _ => "Beyond",
        }
    }

    /// Band name for the current level.
    pub fn band(self) -> (r: &'static str)
        ensures
            r@ == band_text(self.level),
    {
        match self.level {
            0 => "Foundation",
            1..=3 => "Elementary",
            4..=6 => "Intermediate",
            7..=9 => "Advanced",
            10..=12 => "Mastery",
            _ => "Transcendent",
        }
    }

    /// The mastery layer corresponding to this understanding level.
    pub fn layer_index(self) -> (r: MasteryLayer)
        ensures
            r == layer_of(self.level),
    {
        MasteryLayer::from_level(self.level)
    }

    /// Full description.
    pub fn describe(self) -> (r: String)
        ensures
            r@ == self.description(),
    {
        let layer = self.layer_index();
        let mut v: Vec<char> = Vec::new();
        push_str(&mut v, "Cycle ");
        push_decimal(&mut v, self.cycle as u64);
        push_str(&mut v, " ");
        push_str(&mut v, self.level_name());
        push_str(&mut v, " (");
        push_str(&mut v, self.band());
        push_str(&mut v, ") — ");
        push_str(&mut v, layer.state());
        push_str(&mut v, " (");
        push_decimal(&mut v, layer.level() as u64);
        push_str(&mut v, ")");
        string_of(&v)
    }

    /// Shorter description.
    pub fn describe_layer(self) -> (r: String)
        ensures
            r@ == self.layer_description(),
    {
        let layer = self.layer_index();
        let mut v: Vec<char> = Vec::new();
        push_str(&mut v, layer.state());
        push_str(&mut v, " (");
        push_decimal(&mut v, layer.level() as u64);
        push_str(&mut v, ") — Level ");
        push_decimal(&mut v, self.level as u64);
        push_str(&mut v, "/");
        push_decimal(&mut v, MAX_LEVEL as u64);
        string_of(&v)
    }

    /// The display form, which is the full description.
    pub fn to_string(self) -> (r: String)
        ensures
            r@ == self.description(),
    {
        self.describe()
    }

    /// The default axis is kindergarten.
    pub fn default() -> (r: Self)
        ensures
            r.level == 0 && r.cycle == 0,
    {
        Self::kindergarten()
    }
}

/// `advanced(a, k + 1)` is one more step after `advanced(a, k)`.
pub proof fn lemma_advanced_split(a: UnderstandingAxis, k: nat)
    ensures
        advanced(a, k + 1) == advance_step(advanced(a, k)),
    decreases k,
{
    if k == 0 {
        assert(advanced(advance_step(a), 0) == advance_step(a));
    } else {
        lemma_advanced_split(advance_step(a), (k - 1) as nat);
    }
}

/// Curriculum bands — broader groupings of K-12 levels.
#[derive(Debug, Clone, Copy, PartialEq, Eq, Hash, Structural)]
pub enum CurriculumBand {
    Foundation,
    Elementary,
    Intermediate,
    Advanced,
    Mastery,
}

pub open spec fn band_of(level: u8) -> CurriculumBand {
    if level == 0 {
        CurriculumBand::Foundation
    } else if level <= 3 {
        CurriculumBand::Elementary
    } else if level <= 6 {
        CurriculumBand::Intermediate
    } else if level <= 9 {
        CurriculumBand::Advanced
    } else {
        CurriculumBand::Mastery
    }
}

impl CurriculumBand {
    /// First level of the band.
    pub open spec fn first_level(self) -> u8 {
        match self {
            CurriculumBand::Foundation => 0,
            CurriculumBand::Elementary => 1,
            CurriculumBand::Intermediate => 4,
            CurriculumBand::Advanced => 7,
            CurriculumBand::Mastery => 10,
        }
    }

    /// Last level of the band.
    pub open spec fn last_level(self) -> u8 {
        match self {
            CurriculumBand::Foundation => 0,
            CurriculumBand::Elementary => 3,
            CurriculumBand::Intermediate => 6,
            CurriculumBand::Advanced => 9,
            CurriculumBand::Mastery => 12,
        }
    }

    /// The levels covered by this band.
    pub fn levels(self) -> (r: std::ops::RangeInclusive<u8>)
        ensures
            r@.start == self.first_level(),
            r@.end == self.last_level(),
            !r@.exhausted,
    {
        match self {
            CurriculumBand::Foundation => std::ops::RangeInclusive::new(0, 0),
            CurriculumBand::Elementary => std::ops::RangeInclusive::new(1, 3),
            CurriculumBand::Intermediate => std::ops::RangeInclusive::new(4, 6),
            CurriculumBand::Advanced => std::ops::RangeInclusive::new(7, 9),
            CurriculumBand::Mastery => std::ops::RangeInclusive::new(10, 12),
        }
    }

    /// Detect the band from a level value.
    pub fn from_level(level: u8) -> (r: Self)
        ensures
            r == band_of(level),
    {
        match level {
            0 => CurriculumBand::Foundation,
            1..=3 => CurriculumBand::Elementary,
            4..=6 => CurriculumBand::Intermediate,
            7..=9 => CurriculumBand::Advanced,
            _ => CurriculumBand::Mastery,
        }
    }
}


/// Each advance deepens the axis by exactly one: from a valid axis (level at
/// most 12) whose cycle has room, `advance` adds one to `depth`, and the axis
/// stays valid.
pub proof fn law_advance_deepens_by_one(a: UnderstandingAxis)
    requires
        a.level <= 12,
        step_fits(a),
    ensures
        advance_step(a).depth_value() == a.depth_value() + 1,
        advance_step(a).level <= 12,
{
}

/// `advance_by(n)` deepens a valid axis by exactly `n`.
pub proof fn law_advance_by_deepens(a: UnderstandingAxis, n: nat)
    requires
        a.level <= 12,
        steps_fit(a, n),
    ensures
        advanced(a, n).depth_value() == a.depth_value() + n,
        advanced(a, n).level <= 12,
    decreases n,
{
    if n > 0 {
        law_advance_deepens_by_one(a);
        law_advance_by_deepens(advance_step(a), (n - 1) as nat);
    }
}

/// A mastery layer's own level maps back to that layer.
pub proof fn law_layer_round_trip(l: MasteryLayer)
    ensures
        layer_of(l.level_value()) == l,
{
}

/// Every level up to 12 lies in the band `from_level` detects, and a band's
/// first level detects that band.
pub proof fn law_band_covers_level(level: u8, b: CurriculumBand)
    ensures
        level <= 12 ==> band_of(level).first_level() <= level <= band_of(level).last_level(),
        band_of(b.first_level()) == b,
        band_of(b.last_level()) == b,
{
}


/// Mastery layers partition the levels along the curriculum bands: level 0
/// (Foundation) is `Unknown`, exactly levels 1 to 3 (Elementary) are `Aware`,
/// exactly levels 4 to 6 (Intermediate) are `Learning`, and the Advanced and
/// Mastery levels from 7 up are `Known`. Each layer covers the levels above
/// the previous layer's own level up to its own.
pub proof fn law_layers_follow_bands(level: u8)
    ensures
        (layer_of(level) == MasteryLayer::Unknown) <==> (level == 0),
        (layer_of(level) == MasteryLayer::Aware) <==> (1 <= level <= 3),
        (layer_of(level) == MasteryLayer::Learning) <==> (4 <= level <= 6),
        (layer_of(level) == MasteryLayer::Known) <==> (level >= 7),
        (layer_of(level) == MasteryLayer::Unknown) <==> (band_of(level) == CurriculumBand::Foundation),
        (layer_of(level) == MasteryLayer::Aware) <==> (band_of(level) == CurriculumBand::Elementary),
        (layer_of(level) == MasteryLayer::Learning) <==> (band_of(level)
            == CurriculumBand::Intermediate),
        (layer_of(level) == MasteryLayer::Aware) <==> (MasteryLayer::Unknown.level_value() < level
            <= MasteryLayer::Aware.level_value()),
        (layer_of(level) == MasteryLayer::Learning) <==> (MasteryLayer::Aware.level_value() < level
            <= MasteryLayer::Learning.level_value()),
{
}

} // verus!
