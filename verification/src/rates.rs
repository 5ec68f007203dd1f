//! The three tunable rates of the animation, as whole thousandths.

use vstd::prelude::*;

verus! {

/// One whole, in the unit rates are counted in: a rate of `RATE_UNIT` is 1.
pub const RATE_UNIT: u32 = 1000;

/// Drops started per tick on a terminal of `REFERENCE_WIDTH` columns.
pub const DROP_RATE: u32 = 300;

/// How readily glyphs change; scales the longest wait between two changes.
pub const MUTATE_RATE: u32 = 25;

/// Success probability of each trial of the draw that delays dimming.
pub const DIM_RATE: u32 = 500;

/// The terminal width at which `drop_rate` is the expected number of new
/// drops per tick.
pub const REFERENCE_WIDTH: u32 = 80;

/// The shortest wait between two changes of a glyph, in ticks.
pub const FLIP_FLOOR: u64 = 10;

/// Ticks of wait that a mutate rate of 1 would allow at most.
pub const FLIP_SCALE: u64 = 1200;

/// Trials of the draw that delays dimming.
pub const DIM_TRIALS: u64 = 2;

/// The rates a screen runs at, each in thousandths.
#[derive(Clone, Copy, Debug, PartialEq, Eq, Structural)]
pub struct Rates {
    pub drop_rate: u32,
    pub mutate_rate: u32,
    pub dim_rate: u32,
}

impl Rates {
    /// The dim rate is a probability, so it is at most one whole.
    pub open spec fn wf(self) -> bool {
        self.dim_rate <= RATE_UNIT
    }

    /// The bound below which waits between glyph changes are drawn:
    /// `mutate_rate * FLIP_SCALE`, rounded down to whole ticks.
    pub open spec fn flip_limit(self) -> int {
        self.mutate_rate * FLIP_SCALE / (RATE_UNIT as int)
    }

    /// Whether glyphs change at all: there must be a wait to draw.
    pub open spec fn mutates(self) -> bool {
        FLIP_FLOOR < self.flip_limit()
    }

    /// The waits a glyph may draw: from `FLIP_FLOOR` up to the limit, which
    /// is left out.
    pub open spec fn flip_roll_ok(self, roll: u64) -> bool {
        FLIP_FLOOR <= roll < self.flip_limit()
    }

    /// The delays a dimming cell may draw: the successes among `DIM_TRIALS`
    /// trials. A rate of zero never succeeds, a rate of one whole always.
    pub open spec fn dim_roll_ok(self, roll: u64) -> bool {
        &&& roll <= DIM_TRIALS
        &&& self.dim_rate == 0 ==> roll == 0
        &&& self.dim_rate == RATE_UNIT ==> roll == DIM_TRIALS
    }

    /// The spawn budget of one tick on `width` columns, counted in
    /// `budget_unit()`s: `drop_rate * width / REFERENCE_WIDTH` as a fraction.
    pub open spec fn spawn_budget(self, width: nat) -> int {
        self.drop_rate * width
    }

    /// What one whole drop costs, in the unit of `spawn_budget`.
    pub open spec fn budget_unit() -> int {
        RATE_UNIT * REFERENCE_WIDTH
    }

    /// Spawn attempts of one tick: the budget rounded up to whole drops.
    pub open spec fn spawn_tries(self, width: nat) -> int {
        (self.spawn_budget(width) + Self::budget_unit() - 1) / Self::budget_unit()
    }

    /// Spawn attempts that cannot fail by chance: the budget rounded down.
    pub open spec fn sure_spawns(self, width: nat) -> int {
        self.spawn_budget(width) / Self::budget_unit()
    }

    /// The rates the animation runs at unless told otherwise.
    pub open spec fn standard_rates() -> Rates {
        Rates { drop_rate: DROP_RATE, mutate_rate: MUTATE_RATE, dim_rate: DIM_RATE }
    }

    /// `standard_rates`, computed.
    pub fn standard() -> (rates: Rates)
        ensures
            rates == Self::standard_rates(),
            rates.wf(),
    {
        Rates { drop_rate: DROP_RATE, mutate_rate: MUTATE_RATE, dim_rate: DIM_RATE }
    }

    /// Rates from thousandths. A dim rate above one whole is no probability
    /// and is refused.
    pub fn new(drop_rate: u32, mutate_rate: u32, dim_rate: u32) -> (made: Option<Rates>)
        ensures
            made is Some <==> dim_rate <= RATE_UNIT,
            made matches Some(rates) ==> rates == (Rates { drop_rate, mutate_rate, dim_rate })
                && rates.wf(),
    {
        if dim_rate <= RATE_UNIT {
            Some(Rates { drop_rate, mutate_rate, dim_rate })
        } else {
            None
        }
    }

    /// Whether these rates are well formed, for callers that filled the
    /// fields themselves.
    pub fn is_valid(&self) -> (valid: bool)
        ensures
            valid == self.wf(),
    {
        self.dim_rate <= RATE_UNIT
    }

    /// `flip_limit`, computed.
    pub fn flip_ceiling(&self) -> (limit: u64)
        ensures
            limit == self.flip_limit(),
    {
        let scaled: u64 = self.mutate_rate as u64 * FLIP_SCALE;
        scaled / (RATE_UNIT as u64)
    }
}

} // verus!
