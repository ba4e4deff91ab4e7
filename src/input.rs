use vstd::prelude::*;

use crate::text::{decimal_string, signed_decimal, signed_decimal_string};
use crate::unit_of_measurement::pressure::{lemma_unit_round_trip, Pressure, Unit};
use crate::unit_of_measurement::{trunc_div, UnitOfMeasurement};

verus! {

/// One editable value of a row, tagged with what it measures.
#[derive(Clone, Copy, Debug, PartialEq, Eq, Structural)]
pub enum InputParam {
    /// Engine speed, in revolutions per minute.
    Rpm(u32),
    /// Volumetric efficiency, in percent.
    Ve(u32),
    /// Manifold absolute pressure.
    Manifold(Pressure),
}

impl InputParam {
    /// Position of the kind in the fixed order Rpm, Ve, Manifold.
    pub open spec fn kind(self) -> nat {
        match self {
            InputParam::Rpm(_) => 0,
            InputParam::Ve(_) => 1,
            InputParam::Manifold(_) => 2,
        }
    }

    /// A value of kind `k` (taken modulo three) with the empty payload.
    pub open spec fn blank(k: nat) -> InputParam {
        if k % 3 == 0 {
            InputParam::Rpm(0)
        } else if k % 3 == 1 {
            InputParam::Ve(0)
        } else {
            InputParam::Manifold(Pressure::of(0))
        }
    }

    /// The number stored, in the base unit of its kind.
    pub open spec fn value(self) -> int {
        match self {
            InputParam::Rpm(v) => v as int,
            InputParam::Ve(v) => v as int,
            InputParam::Manifold(p) => p@,
        }
    }

    /// The number shown and edited: a pressure is read in `unit`.
    pub open spec fn shown(self, unit: Unit) -> int {
        match self {
            InputParam::Manifold(p) => trunc_div(p@, unit.factor()),
            _ => self.value(),
        }
    }

    /// Whether `n` can be stored as the shown number of this kind in `unit`.
    pub open spec fn fits(self, n: int, unit: Unit) -> bool {
        match self {
            InputParam::Manifold(_) => i32::MIN <= n * unit.factor() <= i32::MAX,
            _ => 0 <= n <= u32::MAX,
        }
    }

    /// The value of the same kind whose shown number in `unit` is `n`.
    pub open spec fn with_shown(self, n: int, unit: Unit) -> InputParam {
        match self {
            InputParam::Rpm(_) => InputParam::Rpm(n as u32),
            InputParam::Ve(_) => InputParam::Ve(n as u32),
            InputParam::Manifold(_) => InputParam::Manifold(Pressure::of(n * unit.factor())),
        }
    }

    /// The value after typing digit `d`: the shown number becomes
    /// `shown * 10 + d`; a number too large for the kind leaves it as it was.
    pub open spec fn appended(self, d: nat, unit: Unit) -> InputParam {
        let n = self.shown(unit) * 10 + d;
        if self.fits(n, unit) {
            self.with_shown(n, unit)
        } else {
            self
        }
    }

    /// The value after deleting the last digit: the shown number is divided
    /// by ten, truncating toward zero.
    pub open spec fn truncated(self, unit: Unit) -> InputParam {
        self.with_shown(trunc_div(self.shown(unit), 10), unit)
    }

    /// The text shown for this value when pressures are read in `unit`.
    pub open spec fn text(self, unit: Unit) -> Seq<char> {
        signed_decimal(self.shown(unit))
    }

    pub fn kind_index(&self) -> (r: usize)
        ensures
            r == self.kind(),
    {
        match self {
            InputParam::Rpm(_) => 0,
            InputParam::Ve(_) => 1,
            InputParam::Manifold(_) => 2,
        }
    }

    /// The value of the next kind (Rpm -> Ve -> Manifold -> Rpm), with an empty
    /// payload: the current payload is not carried over.
    pub fn next(&self) -> (r: Self)
        ensures
            r == InputParam::blank(self.kind() + 1),
    {
        match self {
            Self::Rpm(_) => Self::Ve(0),
            Self::Ve(_) => {
                let p = Pressure::default();
                proof {
                    Pressure::lemma_of(0);
                    Pressure::lemma_view_injective(p, Pressure::of(0));
                }
                Self::Manifold(p)
            },
            Self::Manifold(_) => Self::Rpm(0),
        }
    }

    /// The value of the previous kind (Manifold -> Ve -> Rpm -> Manifold), with an
    /// empty payload.
    pub fn previous(&self) -> (r: Self)
        ensures
            r == InputParam::blank(self.kind() + 2),
    {
        match self {
            Self::Rpm(_) => {
                let p = Pressure::default();
                proof {
                    Pressure::lemma_of(0);
                    Pressure::lemma_view_injective(p, Pressure::of(0));
                }
                Self::Manifold(p)
            },
            Self::Ve(_) => Self::Rpm(0),
            Self::Manifold(_) => Self::Ve(0),
        }
    }

    /// Types digit `digit`, reading a pressure in `unit`.
    pub fn append_digit(&mut self, digit: u32, unit: Unit)
        requires
            digit < 10,
        ensures
            *final(self) == old(self).appended(digit as nat, unit),
    {
        match *self {
            InputParam::Rpm(v) => {
                let n: u64 = v as u64 * 10 + digit as u64;
                if n <= u32::MAX as u64 {
                    *self = InputParam::Rpm(n as u32);
                }
            },
            InputParam::Ve(v) => {
                let n: u64 = v as u64 * 10 + digit as u64;
                if n <= u32::MAX as u64 {
                    *self = InputParam::Ve(n as u32);
                }
            },
            InputParam::Manifold(p) => {
                let n: i64 = p.as_unit(unit) as i64 * 10 + digit as i64;
                let scale = unit.scale();
                assert(-100_000_000_000_000i64 <= n * scale <= 100_000_000_000_000i64)
                    by (nonlinear_arith)
                    requires
                        -30_000_000_000i64 <= n <= 30_000_000_000i64,
                        1 <= scale <= 1000,
                ;
                let base: i64 = n * scale as i64;
                if i32::MIN as i64 <= base && base <= i32::MAX as i64 {
                    assert(i32::MIN <= n <= i32::MAX) by (nonlinear_arith)
                        requires
                            i32::MIN <= n * scale <= i32::MAX,
                            1 <= scale,
                    ;
                    let q = Pressure::from_unit(unit, n as i32);
                    proof {
                        Pressure::lemma_of(base as int);
                        Pressure::lemma_view_injective(q, Pressure::of(base as int));
                    }
                    *self = InputParam::Manifold(q);
                }
            },
        }
    }

    /// Deletes the last digit of the shown number, reading a pressure in
    /// `unit`.
    pub fn delete_digit(&mut self, unit: Unit)
        ensures
            *final(self) == old(self).truncated(unit),
    {
        match *self {
            InputParam::Rpm(v) => {
                *self = InputParam::Rpm(v / 10);
            },
            InputParam::Ve(v) => {
                *self = InputParam::Ve(v / 10);
            },
            InputParam::Manifold(p) => {
                proof {
                    Pressure::lemma_view_range(p);
                }
                let shown = p.as_unit(unit);
                let n = shown / 10;
                proof {
                    lemma_truncated_fits(p@, unit);
                }
                let q = Pressure::from_unit(unit, n);
                proof {
                    Pressure::lemma_of(unit.factor() * n);
                    Pressure::lemma_view_injective(q, Pressure::of(n * unit.factor()));
                }
                *self = InputParam::Manifold(q);
            },
        }
    }

    /// The value as text, with a pressure read in `unit`.
    pub fn render_text(&self, unit: Unit) -> (r: String)
        ensures
            r@ == self.text(unit),
    {
        match self {
            InputParam::Rpm(v) => decimal_string(*v),
            InputParam::Ve(v) => decimal_string(*v),
            InputParam::Manifold(p) => signed_decimal_string(p.as_unit(unit)),
        }
    }
}

/// A row of the inputs table: one value of each kind.
#[derive(Clone, Copy, Debug, PartialEq, Eq, Structural)]
pub struct Row {
    pub rpm: InputParam,
    pub ve: InputParam,
    pub map: InputParam,
}

impl Row {
    /// Each field holds a value of its own kind.
    pub open spec fn wf(self) -> bool {
        &&& self.rpm is Rpm
        &&& self.ve is Ve
        &&& self.map is Manifold
    }

    /// The field of kind `k`, in the order Rpm, Ve, Manifold.
    pub open spec fn field(self, k: nat) -> InputParam {
        if k == 0 {
            self.rpm
        } else if k == 1 {
            self.ve
        } else {
            self.map
        }
    }

    /// The row with the field of kind `k` replaced by `p`.
    pub open spec fn with_field(self, k: nat, p: InputParam) -> Row {
        if k == 0 {
            Row { rpm: p, ..self }
        } else if k == 1 {
            Row { ve: p, ..self }
        } else {
            Row { map: p, ..self }
        }
    }

    /// The three fields in display order.
    pub open spec fn fields(self) -> Seq<InputParam> {
        seq![self.rpm, self.ve, self.map]
    }

    /// Walks the fields in display order.
    pub fn iter(&self) -> (r: RowIter<'_>)
        ensures
            r.remaining() == self.fields(),
    {
        RowIter::from_row(self)
    }
}

impl Default for Row {
    /// 7000 rpm, 95 % efficiency, 200 kPa.
    fn default() -> (r: Row)
        ensures
            r.rpm == InputParam::Rpm(7000),
            r.ve == InputParam::Ve(95),
            r.map == InputParam::Manifold(Pressure::of(200_000)),
    {
        let p = Pressure::from_unit(Unit::KiloPascal, 200);
        proof {
            Pressure::lemma_of(200_000);
            Pressure::lemma_view_injective(p, Pressure::of(200_000));
        }
        Row { rpm: InputParam::Rpm(7000), ve: InputParam::Ve(95), map: InputParam::Manifold(p) }
    }
}

/// Hands out the fields of a row one at a time, in display order.
pub struct RowIter<'a> {
    row: &'a Row,
    iter_state: Option<InputParam>,
}

impl<'a> RowIter<'a> {
    /// The fields not handed out yet.
    pub closed spec fn remaining(&self) -> Seq<InputParam> {
        match self.iter_state {
            Some(InputParam::Rpm(_)) => self.row.fields(),
            Some(InputParam::Ve(_)) => seq![self.row.ve, self.row.map],
            Some(InputParam::Manifold(_)) => seq![self.row.map],
            None => Seq::empty(),
        }
    }

    fn from_row(row: &'a Row) -> (r: Self)
        ensures
            r.remaining() == row.fields(),
    {
        RowIter { row: row, iter_state: Some(InputParam::Rpm(0)) }
    }

    /// The next field, or `None` once all three were handed out.
    pub fn next(&mut self) -> (r: Option<&'a InputParam>)
        ensures
            old(self).remaining().len() == 0 ==> r is None && final(self).remaining().len() == 0,
            old(self).remaining().len() > 0 ==> (r matches Some(p) && *p == old(
                self,
            ).remaining()[0]),
            old(self).remaining().len() > 0 ==> final(self).remaining() == old(
                self,
            ).remaining().drop_first(),
    {
        match self.iter_state {
            Some(InputParam::Rpm(_)) => {
                self.iter_state = Some(InputParam::Ve(0));
                proof {
                    assert(final(self).remaining() =~= old(self).remaining().drop_first());
                }
                Some(&self.row.rpm)
            },
            Some(InputParam::Ve(_)) => {
                self.iter_state = Some(InputParam::Manifold(Pressure::default()));
                proof {
                    assert(final(self).remaining() =~= old(self).remaining().drop_first());
                }
                Some(&self.row.ve)
            },
            Some(InputParam::Manifold(_)) => {
                self.iter_state = None;
                proof {
                    assert(final(self).remaining() =~= old(self).remaining().drop_first());
                }
                Some(&self.row.map)
            },
            None => None,
        }
    }
}

/// Dropping the last shown digit of a pressure never leaves the `i32` range.
proof fn lemma_truncated_fits(pascals: int, unit: Unit)
    requires
        i32::MIN <= pascals <= i32::MAX,
    ensures
        i32::MIN <= unit.factor() * trunc_div(trunc_div(pascals, unit.factor()), 10) <= i32::MAX,
{
    let f = unit.factor();
    let t = trunc_div(pascals, f);
    let u = trunc_div(t, 10);
    if pascals >= 0 {
        assert(0 <= f * u <= pascals) by (nonlinear_arith)
            requires
                f == 1 || f == 1000,
                t == pascals / f,
                u == t / 10,
                pascals >= 0,
        ;
    } else {
        assert(pascals <= f * u <= 0) by (nonlinear_arith)
            requires
                f == 1 || f == 1000,
                t == -((-pascals) / f),
                u == -((-t) / 10),
                pascals < 0,
        ;
    }
}

} // verus!
