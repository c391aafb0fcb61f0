//! Cosines and sines in fixed point, one pair for each whole degree.
//!
//! The library does no trigonometry of its own. Whoever evaluates the cosines
//! and sines hands them over as a table, and the table is accepted only if each
//! of its entries has the length of a unit vector.
use vstd::prelude::*;

verus! {

/// The fixed-point value of one: a component `c` of a `UnitVector` stands
/// for the number `c / UNIT`.
pub const UNIT: i32 = 0x4000_0000;

/// The number of entries of a table, one for each whole degree of a turn.
pub const DEGREES_PER_TURN: usize = 360;

/// The cosine and the sine of an angle, each scaled by `UNIT` and rounded.
#[derive(Clone, Copy, PartialEq, Eq, Structural, Debug)]
pub struct UnitVector {
    pub cos: i32,
    pub sin: i32,
}

impl UnitVector {
    /// The vector's length is within one of `UNIT`, which is as close as
    /// rounded components get.
    pub open spec fn is_unit(self) -> bool {
        let norm = self.cos * self.cos + self.sin * self.sin;
        (UNIT - 1) * (UNIT - 1) <= norm <= (UNIT + 1) * (UNIT + 1)
    }

    /// Decides `is_unit`.
    pub fn has_unit_length(&self) -> (ok: bool)
        ensures
            ok == self.is_unit(),
    {
        let c: i64 = self.cos as i64;
        let s: i64 = self.sin as i64;
        let most: i64 = UNIT as i64 + 1;
        let least: i64 = UNIT as i64 - 1;
        if c < -most || c > most || s < -most || s > most {
            proof {
                lemma_square_exceeds(c as int, most as int);
                lemma_square_exceeds(s as int, most as int);
            }
            return false;
        }
        assert(0 <= c * c <= most * most && 0 <= s * s <= most * most && most * most
            == 0x1000_0000_8000_0001 && least * least == 0x0fff_ffff_8000_0001)
            by (nonlinear_arith)
            requires
                -most <= c <= most,
                -most <= s <= most,
                most == 0x4000_0001,
                least == 0x3fff_ffff,
        ;
        let norm: i64 = c * c + s * s;
        least * least <= norm && norm <= most * most
    }
}

/// A number beyond `bound` in magnitude has a square beyond `bound * bound`,
/// and every square is at least zero.
proof fn lemma_square_exceeds(v: int, bound: int)
    by (nonlinear_arith)
    requires
        bound >= 0,
    ensures
        v * v >= 0,
        (v > bound || v < -bound) ==> v * v > bound * bound,
{
}

/// A table of unit vectors, entry `d` for the angle of `d` degrees,
/// `0 <= d < 360`. Every table that exists has 360 entries, all of them unit
/// vectors.
#[derive(Debug)]
pub struct TrigTable {
    entries: Vec<UnitVector>,
}

impl View for TrigTable {
    type V = Seq<UnitVector>;

    closed spec fn view(&self) -> Seq<UnitVector> {
        self.entries@
    }
}

/// What makes a sequence of vectors a table.
pub open spec fn is_trig_table(entries: Seq<UnitVector>) -> bool {
    &&& entries.len() == DEGREES_PER_TURN
    &&& forall|d: int| 0 <= d < entries.len() ==> (#[trigger] entries[d]).is_unit()
}

impl TrigTable {
    /// Holds of every table.
    #[verifier::type_invariant]
    pub open spec fn well_formed(&self) -> bool {
        is_trig_table(self@)
    }

    /// Accepts `entries` as a table if and only if there are 360 of them and
    /// each is a unit vector.
    pub fn new(entries: Vec<UnitVector>) -> (table: Option<TrigTable>)
        ensures
            table is Some <==> is_trig_table(entries@),
            table matches Some(t) ==> t@ == entries@,
    {
        if entries.len() != DEGREES_PER_TURN {
            return None;
        }
        let mut d: usize = 0;
        while d < entries.len()
            invariant
                d <= entries.len(),
                forall|e: int| 0 <= e < d ==> (#[trigger] entries@[e]).is_unit(),
            decreases entries.len() - d,
        {
            if !entries[d].has_unit_length() {
                return None;
            }
            d += 1;
        }
        Some(TrigTable { entries })
    }

    /// The entry for the angle of `degrees` degrees. Angles that are whole
    /// turns apart have the same entry.
    pub fn at(&self, degrees: usize) -> (u: UnitVector)
        ensures
            u == self@[(degrees % DEGREES_PER_TURN) as int],
            u.is_unit(),
    {
        proof {
            use_type_invariant(self);
        }
        self.entries[degrees % DEGREES_PER_TURN]
    }
}

} // verus!
