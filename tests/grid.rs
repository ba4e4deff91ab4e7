use volute::app::{App, EditMode};
use volute::input::{InputParam, Row};
use volute::unit_of_measurement::pressure::{Pressure, Unit};
use volute::unit_of_measurement::UnitOfMeasurement;

/// Three rows whose rpm values are 1, 2 and 3, with the cursor on the first.
fn three_rows() -> App {
    let mut app = App::default();
    app.insert_row();
    app.insert_row();
    for (i, rpm) in [1u32, 2, 3].iter().enumerate() {
        while app.selected_row() != i {
            app.next_row();
        }
        *app.selected_input_param_mut() = InputParam::Rpm(*rpm);
    }
    app.next_row();
    assert_eq!(app.selected_row(), 0);
    app
}

fn rpms(app: &App) -> Vec<u32> {
    app.rows()
        .iter()
        .map(|r| match r.rpm {
            InputParam::Rpm(v) => v,
            _ => panic!("rpm field of another kind"),
        })
        .collect()
}

#[test]
fn initial_state() {
    let app = App::default();
    assert_eq!(app.rows().len(), 1);
    assert_eq!(app.rows()[0], Row::default());
    assert_eq!(app.selected_row(), 0);
    assert_eq!(app.selected_column(), InputParam::Rpm(0));
    assert_eq!(app.edit_mode(), EditMode::Navigate);
    assert_eq!(app.pressure_unit, Unit::KiloPascal);
    assert_eq!(*app.selected_input_param(), InputParam::Rpm(7000));
}

#[test]
fn row_moves_wrap_at_both_ends() {
    let mut app = three_rows();
    app.next_row();
    assert_eq!(app.selected_row(), 1);
    app.next_row();
    assert_eq!(app.selected_row(), 2);
    app.next_row();
    assert_eq!(app.selected_row(), 0);
    app.previous_row();
    assert_eq!(app.selected_row(), 2);
    app.previous_row();
    assert_eq!(app.selected_row(), 1);
}

#[test]
fn row_moves_stay_in_range() {
    let mut app = three_rows();
    let moves = [true, true, false, true, true, true, false, false, false, false, true];
    for down in moves {
        if down {
            app.next_row();
        } else {
            app.previous_row();
        }
        assert!(app.selected_row() < app.rows().len());
    }
    // six moves down and five up
    assert_eq!(app.selected_row(), 1);
    assert_eq!(rpms(&app), vec![1, 2, 3]);
}

#[test]
fn row_moves_with_one_row_stay_put() {
    let mut app = App::default();
    app.next_row();
    assert_eq!(app.selected_row(), 0);
    app.previous_row();
    assert_eq!(app.selected_row(), 0);
}

#[test]
fn column_cycle_has_period_three() {
    let mut app = App::default();
    app.next_column();
    assert_eq!(app.selected_column(), InputParam::Ve(0));
    assert_eq!(*app.selected_input_param(), InputParam::Ve(95));
    app.next_column();
    assert_eq!(app.selected_column(), InputParam::Manifold(Pressure::default()));
    app.next_column();
    assert_eq!(app.selected_column(), InputParam::Rpm(0));
    app.previous_column();
    assert_eq!(app.selected_column(), InputParam::Manifold(Pressure::default()));
    app.previous_column();
    app.previous_column();
    assert_eq!(app.selected_column(), InputParam::Rpm(0));
}

#[test]
fn insert_row_puts_a_copy_at_the_cursor() {
    let mut app = three_rows();
    app.next_row();
    app.insert_row();
    assert_eq!(rpms(&app), vec![1, 2, 2, 3]);
    assert_eq!(app.selected_row(), 1);
}

#[test]
fn duplicate_then_delete_restores_rows() {
    let mut app = three_rows();
    app.next_row();
    let before = app.rows().clone();
    app.insert_row();
    app.remove_row();
    assert_eq!(*app.rows(), before);
    assert_eq!(app.selected_row(), 1);
}

#[test]
fn remove_row_keeps_cursor_in_place() {
    let mut app = three_rows();
    app.remove_row();
    assert_eq!(rpms(&app), vec![2, 3]);
    assert_eq!(app.selected_row(), 0);
}

#[test]
fn removing_the_last_row_moves_the_cursor_up() {
    let mut app = three_rows();
    app.previous_row();
    assert_eq!(app.selected_row(), 2);
    app.remove_row();
    assert_eq!(rpms(&app), vec![1, 2]);
    assert_eq!(app.selected_row(), 1);
}

#[test]
fn delete_never_removes_the_only_row() {
    let mut app = three_rows();
    for _ in 0..10 {
        app.remove_row();
        assert!(app.rows().len() >= 1);
        assert!(app.selected_row() < app.rows().len());
    }
    assert_eq!(app.rows().len(), 1);
    assert_eq!(rpms(&app), vec![3]);
}

#[test]
fn duplicate_twice_then_delete_twice() {
    let mut app = App::default();
    app.insert_row();
    app.insert_row();
    assert_eq!(app.rows().len(), 3);
    app.remove_row();
    app.remove_row();
    assert_eq!(app.rows().len(), 1);
    assert_eq!(app.rows()[0], Row::default());
}

#[test]
fn editing_the_pressure_in_kilopascals() {
    let mut app = App::default();
    app.next_column();
    app.next_column();
    app.enter_insert_mode();
    app.edit_append('5');
    assert_eq!(app.snapshot()[0][2].text, "2005");
    assert_eq!(app.output_text(), "2005");
    app.edit_delete();
    assert_eq!(app.snapshot()[0][2].text, "200");
    assert_eq!(app.rows()[0], Row::default());
}

#[test]
fn non_digits_are_ignored() {
    let mut app = App::default();
    app.edit_append('x');
    app.edit_append(' ');
    assert_eq!(app.rows()[0], Row::default());
    app.edit_append('3');
    assert_eq!(app.rows()[0].rpm, InputParam::Rpm(70003));
}

#[test]
fn cycling_the_unit_only_changes_the_display() {
    let mut app = App::default();
    let stored = app.rows()[0].map;
    app.cycle_unit();
    assert_eq!(app.pressure_unit, Unit::Pascal);
    assert_eq!(app.rows()[0].map, stored);
    assert_eq!(app.output_text(), "200000");
    app.cycle_unit();
    assert_eq!(app.pressure_unit, Unit::KiloPascal);
    assert_eq!(app.rows()[0].map, stored);
    assert_eq!(app.output_text(), "200");
}

#[test]
fn editing_in_pascals_appends_to_the_pascal_value() {
    let mut app = App::default();
    app.previous_column();
    app.cycle_unit();
    app.edit_append('1');
    assert_eq!(
        app.rows()[0].map,
        InputParam::Manifold(Pressure::from_unit(Unit::Pascal, 2_000_001))
    );
    app.cycle_unit();
    assert_eq!(app.output_text(), "2000");
}

#[test]
fn snapshot_marks_the_cursor() {
    let mut app = three_rows();
    app.next_row();
    app.next_column();
    let table = app.snapshot();
    assert_eq!(table.len(), 3);
    for (i, row) in table.iter().enumerate() {
        assert_eq!(row.len(), 3);
        for (k, cell) in row.iter().enumerate() {
            assert_eq!(cell.selected, i == 1 && k == 1);
            assert!(!cell.editing);
        }
    }
    assert_eq!(table[1][0].text, "2");
    assert_eq!(table[1][1].text, "95");
    assert_eq!(table[1][2].text, "200");
    app.enter_insert_mode();
    let table = app.snapshot();
    assert!(table[1][1].editing);
    assert!(!table[0][1].editing);
}

#[test]
fn mode_switches() {
    let mut app = App::default();
    app.enter_insert_mode();
    assert_eq!(app.edit_mode(), EditMode::Insert);
    app.exit_insert_mode();
    assert_eq!(app.edit_mode(), EditMode::Navigate);
}

#[test]
fn selected_input_param_mut_writes_the_cell() {
    let mut app = App::default();
    app.next_column();
    *app.selected_input_param_mut() = InputParam::Ve(80);
    assert_eq!(app.rows()[0].ve, InputParam::Ve(80));
    assert_eq!(app.rows()[0].rpm, InputParam::Rpm(7000));
}
