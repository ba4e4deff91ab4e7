use vstd::prelude::*;

use super::{trunc_div, UnitOfMeasurement};

verus! {

/// A pressure, held as a whole number of pascals.
#[derive(Clone, Copy, Debug, PartialEq, Eq, Structural)]
pub struct Pressure(i32);

/// The units a pressure can be entered and shown in.
#[derive(Clone, Copy, Debug, PartialEq, Eq, Structural)]
pub enum Unit {
    Pascal,
    KiloPascal,
}

impl Unit {
    /// Pascals in one of this unit.
    pub open spec fn factor(self) -> int {
        match self {
            Unit::Pascal => 1,
            Unit::KiloPascal => 1000,
        }
    }

    /// The unit after this one in the fixed rotation Pa -> kPa -> Pa.
    pub open spec fn successor(self) -> Unit {
        match self {
            Unit::Pascal => Unit::KiloPascal,
            Unit::KiloPascal => Unit::Pascal,
        }
    }

    /// The unit's symbol.
    pub open spec fn label(self) -> Seq<char> {
        match self {
            Unit::Pascal => seq!['P', 'a'],
            Unit::KiloPascal => seq!['k', 'P', 'a'],
        }
    }

    pub fn to_string(&self) -> (r: String)
        ensures
            r@ == self.label(),
    {
        match self {
            Unit::Pascal => {
                proof {
                    reveal_strlit("Pa");
                }
                String::from_str("Pa")
            },
            Unit::KiloPascal => {
                proof {
                    reveal_strlit("kPa");
                }
                String::from_str("kPa")
            },
        }
    }

    pub fn scale(&self) -> (r: i32)
        ensures
            r == self.factor(),
    {
        match self {
            Unit::Pascal => 1,
            Unit::KiloPascal => 1000,
        }
    }

    /// Advances to the next unit, wrapping around after the last one.
    pub fn next(&mut self)
        ensures
            *final(self) == old(self).successor(),
    {
        match self {
            Unit::Pascal => {
                *self = Unit::KiloPascal;
            },
            Unit::KiloPascal => {
                *self = Unit::Pascal;
            },
        }
    }
}

impl View for Pressure {
    /// The pressure in pascals.
    type V = int;

    closed spec fn view(&self) -> int {
        self.0 as int
    }
}

impl Pressure {
    /// The pressure of `pascals` pascals (meaningful for values that fit in
    /// an `i32`).
    pub closed spec fn of(pascals: int) -> Pressure {
        Pressure(pascals as i32)
    }

    pub proof fn lemma_of(pascals: int)
        requires
            i32::MIN <= pascals <= i32::MAX,
        ensures
            Pressure::of(pascals)@ == pascals,
    {
    }

    pub proof fn lemma_view_range(p: Pressure)
        ensures
            i32::MIN <= p@ <= i32::MAX,
    {
    }

    /// A pressure is determined by its value in pascals.
    pub proof fn lemma_view_injective(a: Pressure, b: Pressure)
        ensures
            a@ == b@ <==> a == b,
    {
    }
}

impl Default for Pressure {
    fn default() -> (r: Pressure)
        ensures
            r@ == 0,
    {
        Pressure(0)
    }
}

/// Converting a whole number of any unit to pascals and back gives the
/// number unchanged: the truncation in `as_unit` never loses anything there.
pub proof fn lemma_unit_round_trip(unit: Unit, n: i32)
    requires
        i32::MIN <= unit.factor() * n <= i32::MAX,
    ensures
        trunc_div(
            <Pressure as UnitOfMeasurement>::scale(unit) * n,
            <Pressure as UnitOfMeasurement>::scale(unit),
        ) == n,
{
    match unit {
        Unit::Pascal => {},
        Unit::KiloPascal => {
            assert(trunc_div(1000 * n, 1000) == n) by (nonlinear_arith);
        },
    }
}

impl UnitOfMeasurement for Pressure {
    type Unit = Unit;

    open spec fn base(&self) -> int {
        self@
    }

    open spec fn scale(unit: Unit) -> int {
        unit.factor()
    }

    fn from_unit(unit: Unit, n: i32) -> Pressure {
        Pressure(unit.scale() * n)
    }

    fn as_unit(&self, unit: Unit) -> i32 {
        self.0 / unit.scale()
    }
}

} // verus!
