use vstd::prelude::*;

use crate::input::{InputParam, Row};
use crate::text::digit_value;
use vstd::arithmetic::div_mod::{lemma_mod_add_multiples_vanish, lemma_mod_self_0, lemma_small_mod};
use crate::unit_of_measurement::pressure::{Pressure, Unit};

verus! {

/// Whether keystrokes move the cursor or edit the selected value.
#[derive(Clone, Copy, Debug, PartialEq, Eq, Structural)]
pub enum EditMode {
    Navigate,
    Insert,
}

/// The state of the inputs table, as the contracts speak of it.
pub struct AppView {
    pub rows: Seq<Row>,
    pub selected_row: int,
    /// The selected column, as a value of its kind with an empty payload.
    pub selected_column: InputParam,
    pub edit_mode: EditMode,
    pub pressure_unit: Unit,
}

impl AppView {
    pub open spec fn wf(self) -> bool {
        &&& 1 <= self.rows.len()
        &&& 0 <= self.selected_row < self.rows.len()
        &&& forall|i: int| 0 <= i < self.rows.len() ==> (#[trigger] self.rows[i]).wf()
        &&& self.selected_column == InputParam::blank(self.selected_column.kind())
    }

    /// The kind of the selected column: 0 for rpm, 1 for ve, 2 for map.
    pub open spec fn column(self) -> nat {
        self.selected_column.kind()
    }

    /// The value under the cursor.
    pub open spec fn selected_param(self) -> InputParam {
        self.rows[self.selected_row].field(self.column())
    }

    /// The state with the value under the cursor replaced by `p`.
    pub open spec fn with_selected(self, p: InputParam) -> AppView {
        AppView {
            rows: self.rows.update(
                self.selected_row,
                self.rows[self.selected_row].with_field(self.column(), p),
            ),
            ..self
        }
    }

    pub open spec fn next_row(self) -> AppView {
        AppView { selected_row: (self.selected_row + 1) % (self.rows.len() as int), ..self }
    }

    pub open spec fn previous_row(self) -> AppView {
        AppView {
            selected_row: (self.selected_row + self.rows.len() - 1) % (self.rows.len() as int),
            ..self
        }
    }

    pub open spec fn next_column(self) -> AppView {
        AppView { selected_column: InputParam::blank(self.column() + 1), ..self }
    }

    pub open spec fn previous_column(self) -> AppView {
        AppView { selected_column: InputParam::blank(self.column() + 2), ..self }
    }

    /// A copy of the selected row is inserted at the cursor; the cursor stays
    /// on the copy and the original moves down by one.
    pub open spec fn insert_row(self) -> AppView {
        AppView {
            rows: self.rows.insert(self.selected_row, self.rows[self.selected_row]),
            ..self
        }
    }

    /// The selected row is removed unless it is the only one; a cursor left
    /// past the end moves to the new last row.
    pub open spec fn remove_row(self) -> AppView {
        if self.rows.len() > 1 {
            let rows = self.rows.remove(self.selected_row);
            AppView {
                rows: rows,
                selected_row: if self.selected_row >= rows.len() {
                    rows.len() - 1
                } else {
                    self.selected_row
                },
                ..self
            }
        } else {
            self
        }
    }

    pub open spec fn enter_insert(self) -> AppView {
        AppView { edit_mode: EditMode::Insert, ..self }
    }

    pub open spec fn exit_insert(self) -> AppView {
        AppView { edit_mode: EditMode::Navigate, ..self }
    }

    pub open spec fn cycle_unit(self) -> AppView {
        AppView { pressure_unit: self.pressure_unit.successor(), ..self }
    }

    /// Typing `c` into the selected value: a digit is appended in the
    /// current pressure unit, anything else is ignored.
    pub open spec fn edit_append(self, c: char) -> AppView {
        match digit_value(c) {
            Some(d) => self.with_selected(self.selected_param().appended(d, self.pressure_unit)),
            None => self,
        }
    }

    /// Deleting the last digit of the selected value.
    pub open spec fn edit_delete(self) -> AppView {
        self.with_selected(self.selected_param().truncated(self.pressure_unit))
    }
}

/// The inputs table: rows of values, a cursor, an edit mode and the unit
/// pressures are shown in.
pub struct App {
    rows: Vec<Row>,
    selected_row: usize,
    selected_column: InputParam,
    edit_mode: EditMode,
    pub pressure_unit: Unit,
}

impl View for App {
    type V = AppView;

    closed spec fn view(&self) -> AppView {
        AppView {
            rows: self.rows@,
            selected_row: self.selected_row as int,
            selected_column: self.selected_column,
            edit_mode: self.edit_mode,
            pressure_unit: self.pressure_unit,
        }
    }
}

impl App {
    pub fn rows(&self) -> (r: &Vec<Row>)
        ensures
            r@ == self@.rows,
    {
        &self.rows
    }

    pub fn selected_row(&self) -> (r: usize)
        ensures
            r == self@.selected_row,
    {
        self.selected_row
    }

    pub fn selected_column(&self) -> (r: InputParam)
        ensures
            r == self@.selected_column,
    {
        self.selected_column
    }

    pub fn edit_mode(&self) -> (r: EditMode)
        ensures
            r == self@.edit_mode,
    {
        self.edit_mode
    }

    pub fn next_row(&mut self)
        requires
            old(self)@.wf(),
        ensures
            final(self)@ == old(self)@.next_row(),
            final(self)@.wf(),
    {
        let ghost len = self.rows.len() as int;
        if self.selected_row < self.rows.len() - 1 {
            self.selected_row += 1;
            proof {
                lemma_small_mod(self.selected_row as nat, len as nat);
            }
        } else {
            self.selected_row = 0;
            proof {
                lemma_mod_self_0(len);
            }
        }
    }

    pub fn previous_row(&mut self)
        requires
            old(self)@.wf(),
        ensures
            final(self)@ == old(self)@.previous_row(),
            final(self)@.wf(),
    {
        let ghost len = self.rows.len() as int;
        if self.selected_row > 0 {
            self.selected_row -= 1;
            proof {
                lemma_mod_add_multiples_vanish(self.selected_row as int, len);
                lemma_small_mod(self.selected_row as nat, len as nat);
            }
        } else {
            self.selected_row = self.rows.len() - 1;
            proof {
                lemma_small_mod((len - 1) as nat, len as nat);
            }
        }
    }

    pub fn next_column(&mut self)
        requires
            old(self)@.wf(),
        ensures
            final(self)@ == old(self)@.next_column(),
            final(self)@.wf(),
    {
        self.selected_column = self.selected_column.next();
    }

    pub fn previous_column(&mut self)
        requires
            old(self)@.wf(),
        ensures
            final(self)@ == old(self)@.previous_column(),
            final(self)@.wf(),
    {
        self.selected_column = self.selected_column.previous();
    }

    /// Duplicates the selected row.
    pub fn insert_row(&mut self)
        requires
            old(self)@.wf(),
        ensures
            final(self)@ == old(self)@.insert_row(),
            final(self)@.wf(),
    {
        let index = self.selected_row;
        let row = self.rows[index];
        self.rows.insert(index, row);
    }

    /// Removes the selected row, unless it is the last one left.
    pub fn remove_row(&mut self)
        requires
            old(self)@.wf(),
        ensures
            final(self)@ == old(self)@.remove_row(),
            final(self)@.wf(),
    {
        if self.rows.len() > 1 {
            self.rows.remove(self.selected_row);
            // Removing the last row leaves the cursor past the end.
            if self.selected_row >= self.rows.len() {
                self.selected_row = self.rows.len() - 1;
            }
        }
    }

    pub fn selected_input_param(&self) -> (r: &InputParam)
        requires
            self@.wf(),
        ensures
            *r == self@.selected_param(),
    {
        match self.selected_column {
            InputParam::Rpm(_) => &self.rows[self.selected_row].rpm,
            InputParam::Ve(_) => &self.rows[self.selected_row].ve,
            InputParam::Manifold(_) => &self.rows[self.selected_row].map,
        }
    }

    pub fn selected_input_param_mut(&mut self) -> (r: &mut InputParam)
        requires
            old(self)@.wf(),
        ensures
            *r == old(self)@.selected_param(),
            final(self)@ == old(self)@.with_selected(*final(r)),
    {
        match self.selected_column {
            InputParam::Rpm(_) => &mut self.rows[self.selected_row].rpm,
            InputParam::Ve(_) => &mut self.rows[self.selected_row].ve,
            InputParam::Manifold(_) => &mut self.rows[self.selected_row].map,
        }
    }
}

impl App {
    pub fn enter_insert_mode(&mut self)
        requires
            old(self)@.wf(),
        ensures
            final(self)@ == old(self)@.enter_insert(),
            final(self)@.wf(),
    {
        self.edit_mode = EditMode::Insert;
    }

    pub fn exit_insert_mode(&mut self)
        requires
            old(self)@.wf(),
        ensures
            final(self)@ == old(self)@.exit_insert(),
            final(self)@.wf(),
    {
        self.edit_mode = EditMode::Navigate;
    }

    /// Shows and edits pressures in the next unit; stored values are kept.
    pub fn cycle_unit(&mut self)
        requires
            old(self)@.wf(),
        ensures
            final(self)@ == old(self)@.cycle_unit(),
            final(self)@.wf(),
    {
        self.pressure_unit.next();
    }

    /// Types `c` into the selected value; only digits have an effect.
    pub fn edit_append(&mut self, c: char)
        requires
            old(self)@.wf(),
        ensures
            final(self)@ == old(self)@.edit_append(c),
            final(self)@.wf(),
    {
        if let Some(d) = crate::text::digit_of(c) {
            let unit = self.pressure_unit;
            let ghost pre = self@;
            let p = self.selected_input_param_mut();
            p.append_digit(d, unit);
            proof {
                lemma_edit_keeps_wf(pre, pre.selected_param().appended(d as nat, unit));
            }
        }
    }

    /// Deletes the last digit of the selected value.
    pub fn edit_delete(&mut self)
        requires
            old(self)@.wf(),
        ensures
            final(self)@ == old(self)@.edit_delete(),
            final(self)@.wf(),
    {
        let unit = self.pressure_unit;
        let ghost pre = self@;
        let p = self.selected_input_param_mut();
        p.delete_digit(unit);
        proof {
            lemma_edit_keeps_wf(pre, pre.selected_param().truncated(unit));
        }
    }
}

/// One cell of the rendered table.
pub struct Cell {
    pub text: String,
    /// The cursor is on this cell.
    pub selected: bool,
    /// The cursor is on this cell and its value is being edited.
    pub editing: bool,
}

impl AppView {
    /// Whether `c` shows the value of kind `k` in row `i` as it should be.
    pub open spec fn shows(self, c: Cell, i: int, k: nat) -> bool {
        &&& c.text@ == self.rows[i].field(k).text(self.pressure_unit)
        &&& c.selected == (i == self.selected_row && k == self.column())
        &&& c.editing == (c.selected && self.edit_mode == EditMode::Insert)
    }

    /// Whether `cells` is row `i` of the rendered table.
    pub open spec fn shows_row(self, cells: Seq<Cell>, i: int) -> bool {
        &&& cells.len() == 3
        &&& forall|k: nat| k < 3 ==> self.shows(#[trigger] cells[k as int], i, k)
    }
}

impl App {
    fn cell(&self, p: &InputParam, selected: bool) -> (r: Cell)
        ensures
            r.text@ == p.text(self@.pressure_unit),
            r.selected == selected,
            r.editing == (selected && self@.edit_mode == EditMode::Insert),
    {
        let editing = selected && match self.edit_mode {
            EditMode::Insert => true,
            EditMode::Navigate => false,
        };
        Cell { text: p.render_text(self.pressure_unit), selected, editing }
    }

    /// The table as it is to be drawn: for each row, its three values as
    /// text, with the cell under the cursor marked.
    pub fn snapshot(&self) -> (r: Vec<Vec<Cell>>)
        requires
            self@.wf(),
        ensures
            r@.len() == self@.rows.len(),
            forall|i: int| 0 <= i < r@.len() ==> self@.shows_row(#[trigger] r@[i]@, i),
    {
        let mut table: Vec<Vec<Cell>> = Vec::new();
        let column = self.selected_column.kind_index();
        let mut i: usize = 0;
        while i < self.rows.len()
            invariant
                self@.wf(),
                column == self@.column(),
                i <= self@.rows.len(),
                table@.len() == i,
                forall|j: int| 0 <= j < i ==> self@.shows_row(#[trigger] table@[j]@, j),
            decreases self@.rows.len() - i,
        {
            let row = &self.rows[i];
            let here = i == self.selected_row;
            let cells = vec![
                self.cell(&row.rpm, here && column == 0),
                self.cell(&row.ve, here && column == 1),
                self.cell(&row.map, here && column == 2),
            ];
            proof {
                let c = cells@;
                assert forall|k: nat| k < 3 implies self@.shows(#[trigger] c[k as int], i as int, k) by {
                    if k == 0 {
                    } else if k == 1 {
                    } else {
                    }
                }
            }
            table.push(cells);
            i += 1;
        }
        table
    }

    /// The map value of the first row, in the current unit.
    pub fn output_text(&self) -> (r: String)
        requires
            self@.wf(),
        ensures
            r@ == self@.rows[0].map.text(self@.pressure_unit),
    {
        self.rows[0].map.render_text(self.pressure_unit)
    }
}

impl Default for App {
    /// One default row, the cursor on its rpm value, navigating, with
    /// pressures in kilopascals.
    fn default() -> (r: App)
        ensures
            r@.rows.len() == 1,
            r@.rows[0] == (Row {
                rpm: InputParam::Rpm(7000),
                ve: InputParam::Ve(95),
                map: InputParam::Manifold(Pressure::of(200_000)),
            }),
            r@.selected_row == 0,
            r@.selected_column == InputParam::Rpm(0),
            r@.edit_mode == EditMode::Navigate,
            r@.pressure_unit == Unit::KiloPascal,
            r@.wf(),
    {
        App {
            rows: vec![Row::default()],
            selected_row: 0,
            selected_column: InputParam::Rpm(0),
            edit_mode: EditMode::Navigate,
            pressure_unit: Unit::KiloPascal,
        }
    }
}

/// Moving down from the last row wraps to the first, moving up from the
/// first wraps to the last, and every other move goes one row; the rows
/// themselves are untouched.
pub proof fn lemma_row_moves_wrap(v: AppView)
    requires
        v.wf(),
    ensures
        v.next_row().wf(),
        v.previous_row().wf(),
        v.next_row().rows == v.rows,
        v.previous_row().rows == v.rows,
        v.next_row().selected_row == if v.selected_row == v.rows.len() - 1 {
            0
        } else {
            v.selected_row + 1
        },
        v.previous_row().selected_row == if v.selected_row == 0 {
            v.rows.len() - 1
        } else {
            v.selected_row - 1
        },
{
    let len = v.rows.len() as int;
    if v.selected_row == len - 1 {
        lemma_mod_self_0(len);
    } else {
        lemma_small_mod((v.selected_row + 1) as nat, len as nat);
    }
    if v.selected_row == 0 {
        lemma_small_mod((len - 1) as nat, len as nat);
    } else {
        lemma_mod_add_multiples_vanish(v.selected_row - 1, len);
        lemma_small_mod((v.selected_row - 1) as nat, len as nat);
    }
}

/// Duplicating the selected row and then deleting the selected row gives
/// back the state as it was: the same rows, the same cursor.
pub proof fn lemma_duplicate_then_delete(v: AppView)
    requires
        v.wf(),
    ensures
        v.insert_row().remove_row() == v,
{
    let w = v.insert_row();
    assert(w.rows.remove(v.selected_row) =~= v.rows);
}

/// Three steps of the column cursor in either direction come back to the
/// column it started on.
pub proof fn lemma_column_cycle(v: AppView)
    requires
        v.wf(),
    ensures
        v.next_column().next_column().next_column() == v,
        v.previous_column().previous_column().previous_column() == v,
{
}

/// Each transition keeps the state well formed.
pub proof fn lemma_transitions_keep_wf(v: AppView, c: char)
    requires
        v.wf(),
    ensures
        v.next_row().wf(),
        v.previous_row().wf(),
        v.next_column().wf(),
        v.previous_column().wf(),
        v.insert_row().wf(),
        v.remove_row().wf(),
        v.enter_insert().wf(),
        v.exit_insert().wf(),
        v.cycle_unit().wf(),
        v.edit_append(c).wf(),
        v.edit_delete().wf(),
{
    lemma_row_moves_wrap(v);
    let ins = v.insert_row();
    assert forall|i: int| 0 <= i < ins.rows.len() implies (#[trigger] ins.rows[i]).wf() by {
        if i < v.selected_row {
            assert(ins.rows[i] == v.rows[i]);
        } else if i == v.selected_row {
            assert(ins.rows[i] == v.rows[v.selected_row]);
        } else {
            assert(ins.rows[i] == v.rows[i - 1]);
        }
    }
    if v.rows.len() > 1 {
        let rows = v.rows.remove(v.selected_row);
        assert forall|i: int| 0 <= i < rows.len() implies (#[trigger] rows[i]).wf() by {
            if i < v.selected_row {
                assert(rows[i] == v.rows[i]);
            } else {
                assert(rows[i] == v.rows[i + 1]);
            }
        }
    }
    if let Some(d) = digit_value(c) {
        lemma_edit_keeps_wf(v, v.selected_param().appended(d, v.pressure_unit));
    }
    lemma_edit_keeps_wf(v, v.selected_param().truncated(v.pressure_unit));
}

/// Replacing the selected value by one of the same kind keeps the state
/// well formed.
proof fn lemma_edit_keeps_wf(v: AppView, p: InputParam)
    requires
        v.wf(),
        p.kind() == v.selected_param().kind(),
    ensures
        v.with_selected(p).wf(),
{
    let w = v.with_selected(p);
    assert forall|i: int| 0 <= i < w.rows.len() implies (#[trigger] w.rows[i]).wf() by {
        if i != v.selected_row {
            assert(w.rows[i] == v.rows[i]);
        } else {
            assert(v.rows[i].wf());
        }
    }
}

} // verus!
