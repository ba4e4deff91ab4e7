use vstd::prelude::*;

pub mod pressure;

verus! {

/// Integer division that rounds toward zero, as Rust's `/` does on signed
/// integers (spec-level `/` rounds toward negative infinity instead).
pub open spec fn trunc_div(a: int, b: int) -> int {
    if a >= 0 {
        a / b
    } else {
        -((-a) / b)
    }
}

/// A physical quantity stored in one base unit and readable in named units.
pub trait UnitOfMeasurement: Sized {
    type Unit;

    /// The stored quantity, counted in the base unit.
    spec fn base(&self) -> int;

    /// How many base units make one `unit`.
    spec fn scale(unit: Self::Unit) -> int;

    /// `n` of `unit`, converted to the base unit.
    fn from_unit(unit: Self::Unit, n: i32) -> (r: Self)
        requires
            i32::MIN <= Self::scale(unit) * n <= i32::MAX,
        ensures
            r.base() == Self::scale(unit) * n,
    ;

    /// The quantity in `unit`, truncated toward zero.
    fn as_unit(&self, unit: Self::Unit) -> (r: i32)
        ensures
            r == trunc_div(self.base(), Self::scale(unit)),
    ;
}

} // verus!
