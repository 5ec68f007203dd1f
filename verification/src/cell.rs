//! One character position of the grid: a glyph, a brightness, and the two
//! countdowns that pace its flicker and its fading.

use crate::chance::{pick_below, ratio, uniform};
use crate::rates::{Rates, DIM_TRIALS, FLIP_FLOOR, RATE_UNIT};
use rand::rngs::ThreadRng;
use vstd::pervasive::unreached;
use vstd::prelude::*;

verus! {

/// The brightness of a cell that a drop head has just lit.
pub const BRIGHTEST: i8 = 15;

/// The brightness of a cell that is not drawn.
pub const INVISIBLE: i8 = -1;

/// The first ASCII digit, `0`.
pub const DIGIT_START: u32 = 0x30;

/// The last ASCII digit, `9`.
pub const DIGIT_END: u32 = 0x39;

/// The first upper-case Latin letter, `A`.
pub const LATIN_START: u32 = 0x41;

/// The last upper-case Latin letter, `Z`.
pub const LATIN_END: u32 = 0x5A;

/// The first half-width Kana letter.
pub const KANA_START: u32 = 0xFF66;

/// The last half-width Kana letter.
pub const KANA_END: u32 = 0xFF9D;

/// How many code points a glyph is chosen among.
pub const GLYPH_COUNT: usize = 92;

/// The code points a cell may show: the ASCII digits, the upper-case Latin
/// letters and the half-width Kana letters.
pub open spec fn is_glyph(code: u32) -> bool {
    ||| DIGIT_START <= code <= DIGIT_END
    ||| LATIN_START <= code <= LATIN_END
    ||| KANA_START <= code <= KANA_END
}

/// The glyphs in order, digits first and Kana last, counted from zero.
pub open spec fn nth_glyph(index: int) -> u32 {
    if index <= DIGIT_END - DIGIT_START {
        (DIGIT_START + index) as u32
    } else if index <= (DIGIT_END - DIGIT_START) + 1 + (LATIN_END - LATIN_START) {
        (LATIN_START + (index - (DIGIT_END - DIGIT_START) - 1)) as u32
    } else {
        (KANA_START + (index - (DIGIT_END - DIGIT_START) - (LATIN_END - LATIN_START) - 2)) as u32
    }
}

/// Numbering the glyphs misses none and counts none twice.
pub proof fn glyphs_are_numbered(code: u32) -> (index: int)
    requires
        is_glyph(code),
    ensures
        0 <= index < GLYPH_COUNT,
        nth_glyph(index) == code,
        forall|other: int| 0 <= other < GLYPH_COUNT && nth_glyph(other) == code ==> other == index,
{
    if code <= DIGIT_END {
        code - DIGIT_START
    } else if code <= LATIN_END {
        code - LATIN_START + 10
    } else {
        code - KANA_START + 36
    }
}

/// The glyph with the given number.
pub fn glyph_at(index: usize) -> (code: u32)
    requires
        index < GLYPH_COUNT,
    ensures
        code == nth_glyph(index as int),
        is_glyph(code),
{
    let digits: u32 = DIGIT_END - DIGIT_START + 1;
    let letters: u32 = LATIN_END - LATIN_START + 1;
    let at: u32 = index as u32;
    if at < digits {
        DIGIT_START + at
    } else if at < digits + letters {
        LATIN_START + (at - digits)
    } else {
        KANA_START + (at - digits - letters)
    }
}

/// The number of a code point among the glyphs, if it is one.
pub fn glyph_index(code: u32) -> (index: Option<usize>)
    ensures
        index is Some <==> is_glyph(code),
        index matches Some(at) ==> at < GLYPH_COUNT && nth_glyph(at as int) == code,
{
    let digits: u32 = DIGIT_END - DIGIT_START + 1;
    let letters: u32 = LATIN_END - LATIN_START + 1;
    if DIGIT_START <= code && code <= DIGIT_END {
        Some((code - DIGIT_START) as usize)
    } else if LATIN_START <= code && code <= LATIN_END {
        Some((code - LATIN_START + digits) as usize)
    } else if KANA_START <= code && code <= KANA_END {
        Some((code - KANA_START + digits + letters) as usize)
    } else {
        None
    }
}

/// A glyph chosen at random, each with the same chance. It is drawn anew on
/// every call.
pub fn get_random_char(rng: &mut ThreadRng) -> (code: u32)
    ensures
        is_glyph(code),
{
    match pick_below(rng, GLYPH_COUNT) {
        Some(index) => glyph_at(index),
        None => unreached(),
    }
}

/// A cell of the grid.
#[derive(Clone, Copy, Debug, PartialEq, Eq, Structural)]
pub struct Cell {
    /// From `INVISIBLE` to `BRIGHTEST`.
    pub brightness: i8,
    /// The code point shown.
    pub glyph: u32,
    /// Ticks until the glyph may change again.
    pub flip_timer: u64,
    /// Ticks the brightness holds before it next falls.
    pub dim_timer: u64,
}

impl Cell {
    /// The brightness is one of the levels and the glyph is one of the
    /// candidates.
    pub open spec fn wf(self) -> bool {
        &&& INVISIBLE <= self.brightness <= BRIGHTEST
        &&& is_glyph(self.glyph)
    }

    /// What `Cell::new` may return under `rates`: an unlit cell with some
    /// glyph and freshly drawn countdowns.
    pub open spec fn fresh(self, rates: Rates) -> bool {
        &&& self.brightness == INVISIBLE
        &&& is_glyph(self.glyph)
        &&& rates.dim_roll_ok(self.dim_timer)
        &&& if rates.mutates() {
            rates.flip_roll_ok(self.flip_timer)
        } else {
            self.flip_timer == 0
        }
    }

    /// The brightness one tick later, unless a drop interferes: a cell at
    /// zero or below goes dark, a lit cell holds while its dim countdown
    /// runs and loses one level when it has run out.
    pub open spec fn dimmed(self) -> i8 {
        if self.brightness <= 0 {
            INVISIBLE
        } else if self.dim_timer > 0 {
            self.brightness
        } else {
            (self.brightness - 1) as i8
        }
    }

    /// Whether this tick draws a new dim countdown.
    pub open spec fn rolls_dim(self) -> bool {
        self.brightness > 0 && self.dim_timer == 0
    }

    /// Whether this tick is due to change the glyph.
    pub open spec fn rolls_flip(self) -> bool {
        self.flip_timer == 0
    }

    /// The cell one tick later, given what the two draws gave: `dim_roll`
    /// for a new dim countdown, `flip_roll` for a new flip countdown and a
    /// new glyph (`None` where glyphs do not change). A draw that the tick
    /// has no use for is ignored.
    pub open spec fn advanced(self, dim_roll: u64, flip_roll: Option<(u64, u32)>) -> Cell {
        Cell {
            brightness: self.dimmed(),
            dim_timer: if self.brightness <= 0 {
                self.dim_timer
            } else if self.dim_timer > 0 {
                (self.dim_timer - 1) as u64
            } else {
                dim_roll
            },
            flip_timer: if self.flip_timer > 0 {
                (self.flip_timer - 1) as u64
            } else if let Some(roll) = flip_roll {
                roll.0
            } else {
                self.flip_timer
            },
            glyph: if self.flip_timer > 0 {
                self.glyph
            } else if let Some(roll) = flip_roll {
                roll.1
            } else {
                self.glyph
            },
        }
    }

    /// Whether one tick under `rates` can turn this cell into `next`.
    ///
    /// The brightness is decided by the cell alone. A countdown that is
    /// running falls by one; one that has run out is drawn anew, and of the
    /// draw only its range is known. The glyph changes exactly when the
    /// flip countdown has run out and the rates let glyphs change.
    pub open spec fn may_become(self, next: Cell, rates: Rates) -> bool {
        &&& next.brightness == self.dimmed()
        &&& if self.rolls_dim() {
            rates.dim_roll_ok(next.dim_timer)
        } else if self.brightness > 0 {
            next.dim_timer == self.dim_timer - 1
        } else {
            next.dim_timer == self.dim_timer
        }
        &&& if !self.rolls_flip() {
            next.flip_timer == self.flip_timer - 1 && next.glyph == self.glyph
        } else if rates.mutates() {
            rates.flip_roll_ok(next.flip_timer) && is_glyph(next.glyph)
        } else {
            next.flip_timer == self.flip_timer && next.glyph == self.glyph
        }
    }

    /// The cell under a drop head: as bright as can be, and about to dim.
    pub open spec fn lit(self) -> Cell {
        Cell { brightness: BRIGHTEST, dim_timer: 0, ..self }
    }

    /// The cell in which a drop starts: as bright as can be.
    pub open spec fn kindled(self) -> Cell {
        Cell { brightness: BRIGHTEST, ..self }
    }

    /// Whether the cell is well formed, for callers that filled the fields
    /// themselves.
    pub fn is_valid(&self) -> (valid: bool)
        ensures
            valid == self.wf(),
    {
        INVISIBLE <= self.brightness && self.brightness <= BRIGHTEST && glyph_index(
            self.glyph,
        ).is_some()
    }

    /// A delay before the next loss of brightness: the successes among
    /// `DIM_TRIALS` independent trials, each succeeding at the dim rate.
    pub fn get_dim_counter(rng: &mut ThreadRng, rates: &Rates) -> (roll: u64)
        requires
            rates.wf(),
        ensures
            rates.dim_roll_ok(roll),
    {
        let mut roll: u64 = 0;
        let mut trial: u64 = 0;
        while trial < DIM_TRIALS
            invariant
                rates.wf(),
                trial <= DIM_TRIALS,
                roll <= trial,
                rates.dim_rate == 0 ==> roll == 0,
                rates.dim_rate == RATE_UNIT ==> roll == trial,
            decreases DIM_TRIALS - trial,
        {
            if ratio(rng, rates.dim_rate, RATE_UNIT) {
                roll = roll + 1;
            }
            trial = trial + 1;
        }
        roll
    }

    /// A wait before the next change of glyph, drawn evenly from
    /// `FLIP_FLOOR` up to the limit of `rates`; `None` where that range is
    /// empty, which is where glyphs do not change.
    pub fn get_flip_counter(rng: &mut ThreadRng, rates: &Rates) -> (roll: Option<u64>)
        ensures
            roll is Some <==> rates.mutates(),
            roll matches Some(wait) ==> rates.flip_roll_ok(wait),
    {
        let limit: u64 = rates.flip_ceiling();
        if FLIP_FLOOR < limit {
            Some(uniform(rng, FLIP_FLOOR, limit))
        } else {
            None
        }
    }

    /// A new wait together with a new glyph, where glyphs change.
    pub fn get_flip(rng: &mut ThreadRng, rates: &Rates) -> (roll: Option<(u64, u32)>)
        ensures
            roll is Some <==> rates.mutates(),
            roll matches Some(flip) ==> rates.flip_roll_ok(flip.0) && is_glyph(flip.1),
    {
        match Self::get_flip_counter(rng, rates) {
            Some(wait) => Some((wait, get_random_char(rng))),
            None => None,
        }
    }

    /// An unlit cell with a random glyph and freshly drawn countdowns.
    pub fn new(rng: &mut ThreadRng, rates: &Rates) -> (cell: Cell)
        requires
            rates.wf(),
        ensures
            cell.fresh(*rates),
            cell.wf(),
    {
        let glyph: u32 = get_random_char(rng);
        let flip_timer: u64 = match Self::get_flip_counter(rng, rates) {
            Some(wait) => wait,
            None => 0,
        };
        let dim_timer: u64 = Self::get_dim_counter(rng, rates);
        Cell { brightness: INVISIBLE, glyph, flip_timer, dim_timer }
    }

    /// One tick with the draws handed in: the cell becomes
    /// `advanced(dim_roll, flip_roll)`.
    pub fn advance(&mut self, dim_roll: u64, flip_roll: Option<(u64, u32)>)
        ensures
            *final(self) == old(self).advanced(dim_roll, flip_roll),
    {
        if self.brightness <= 0 {
            self.brightness = INVISIBLE;
        } else if self.dim_timer > 0 {
            self.dim_timer = self.dim_timer - 1;
        } else {
            self.dim_timer = dim_roll;
            self.brightness = self.brightness - 1;
        }
        if self.flip_timer > 0 {
            self.flip_timer = self.flip_timer - 1;
        } else if let Some(roll) = flip_roll {
            self.flip_timer = roll.0;
            self.glyph = roll.1;
        }
    }

    /// One tick: draws what this tick needs and advances by it.
    pub fn tick(&mut self, rng: &mut ThreadRng, rates: &Rates)
        requires
            rates.wf(),
        ensures
            old(self).may_become(*final(self), *rates),
            old(self).wf() ==> final(self).wf(),
    {
        let dim_roll: u64 = if self.brightness > 0 && self.dim_timer == 0 {
            Self::get_dim_counter(rng, rates)
        } else {
            0
        };
        let flip_roll: Option<(u64, u32)> = if self.flip_timer == 0 {
            Self::get_flip(rng, rates)
        } else {
            None
        };
        proof {
            old(self).advanced_as_drawn(dim_roll, flip_roll, *rates);
        }
        self.advance(dim_roll, flip_roll);
    }

    /// A step by draws that `rates` allow is a step that `rates` allow. The
    /// draws that the step uses must be in range; where glyphs change and
    /// the flip countdown has run out, there must be a flip draw.
    pub proof fn advanced_as_drawn(self, dim_roll: u64, flip_roll: Option<(u64, u32)>, rates: Rates)
        requires
            self.rolls_dim() ==> rates.dim_roll_ok(dim_roll),
            self.rolls_flip() ==> (flip_roll is Some <==> rates.mutates()),
            self.rolls_flip() ==> (flip_roll matches Some(flip) ==> rates.flip_roll_ok(flip.0)
                && is_glyph(flip.1)),
        ensures
            self.may_become(self.advanced(dim_roll, flip_roll), rates),
    {
    }

    /// A tick keeps a well-formed cell well formed: its brightness stays
    /// between `INVISIBLE` and `BRIGHTEST`.
    pub proof fn tick_keeps_wf(self, next: Cell, rates: Rates)
        requires
            self.wf(),
            self.may_become(next, rates),
        ensures
            next.wf(),
    {
    }

    /// A tick never lights a cell: an unlit cell stays unlit, and no cell
    /// grows brighter.
    pub proof fn tick_never_brightens(self, next: Cell, rates: Rates)
        requires
            self.may_become(next, rates),
            self.brightness <= BRIGHTEST,
        ensures
            self.brightness == INVISIBLE ==> next.brightness == INVISIBLE,
            next.brightness <= self.brightness || self.brightness < INVISIBLE,
            next.brightness >= self.brightness - 1,
    {
    }

    /// Where glyphs do not change, an unlit cell that waits for nothing is
    /// left exactly as it was.
    pub proof fn tick_at_rest(self, next: Cell, rates: Rates)
        requires
            self.may_become(next, rates),
            !rates.mutates(),
        ensures
            next.glyph == self.glyph,
            self.brightness == INVISIBLE && self.flip_timer == 0 ==> next == self,
    {
    }
}

} // verus!
