use volute::input::{InputParam, Row};
use volute::unit_of_measurement::pressure::{Pressure, Unit};
use volute::unit_of_measurement::UnitOfMeasurement;

fn kpa(n: i32) -> InputParam {
    InputParam::Manifold(Pressure::from_unit(Unit::KiloPascal, n))
}

#[test]
fn next_cycles_kinds_with_empty_payloads() {
    assert_eq!(InputParam::Rpm(5).next(), InputParam::Ve(0));
    assert_eq!(InputParam::Ve(3).next(), InputParam::Manifold(Pressure::default()));
    assert_eq!(kpa(200).next(), InputParam::Rpm(0));
}

#[test]
fn previous_cycles_kinds_with_empty_payloads() {
    assert_eq!(InputParam::Rpm(5).previous(), InputParam::Manifold(Pressure::default()));
    assert_eq!(InputParam::Ve(3).previous(), InputParam::Rpm(0));
    assert_eq!(kpa(200).previous(), InputParam::Ve(0));
}

#[test]
fn three_steps_return_to_the_same_kind() {
    let p = InputParam::Ve(0);
    assert_eq!(p.next().next().next(), p);
    assert_eq!(p.previous().previous().previous(), p);
}

#[test]
fn kind_index_follows_display_order() {
    assert_eq!(InputParam::Rpm(1).kind_index(), 0);
    assert_eq!(InputParam::Ve(1).kind_index(), 1);
    assert_eq!(kpa(1).kind_index(), 2);
}

#[test]
fn appending_digits_to_counts() {
    let mut p = InputParam::Rpm(700);
    p.append_digit(5, Unit::KiloPascal);
    assert_eq!(p, InputParam::Rpm(7005));
    let mut q = InputParam::Ve(0);
    q.append_digit(9, Unit::Pascal);
    assert_eq!(q, InputParam::Ve(9));
}

#[test]
fn appending_a_digit_that_overflows_is_ignored() {
    let mut p = InputParam::Rpm(429_496_729);
    p.append_digit(5, Unit::Pascal);
    assert_eq!(p, InputParam::Rpm(u32::MAX));
    let mut q = InputParam::Rpm(429_496_729);
    q.append_digit(6, Unit::Pascal);
    assert_eq!(q, InputParam::Rpm(429_496_729));
    let mut r = InputParam::Ve(u32::MAX);
    r.append_digit(0, Unit::Pascal);
    assert_eq!(r, InputParam::Ve(u32::MAX));
}

#[test]
fn deleting_digits_from_counts() {
    let mut p = InputParam::Rpm(7);
    p.delete_digit(Unit::Pascal);
    assert_eq!(p, InputParam::Rpm(0));
    let mut q = InputParam::Ve(95);
    q.delete_digit(Unit::Pascal);
    assert_eq!(q, InputParam::Ve(9));
    let mut z = InputParam::Ve(0);
    z.delete_digit(Unit::Pascal);
    assert_eq!(z, InputParam::Ve(0));
}

#[test]
fn pressure_digits_go_through_the_active_unit() {
    let mut p = kpa(200);
    p.append_digit(5, Unit::KiloPascal);
    assert_eq!(p, kpa(2005));
    p.delete_digit(Unit::KiloPascal);
    assert_eq!(p, kpa(200));

    let mut q = kpa(200);
    q.append_digit(5, Unit::Pascal);
    assert_eq!(q, InputParam::Manifold(Pressure::from_unit(Unit::Pascal, 2_000_005)));
    q.delete_digit(Unit::Pascal);
    assert_eq!(q, kpa(200));
    q.delete_digit(Unit::Pascal);
    assert_eq!(q, kpa(20));
}

#[test]
fn deleting_a_pressure_digit_in_kilopascals_drops_the_pascals() {
    let mut p = InputParam::Manifold(Pressure::from_unit(Unit::Pascal, 123_456));
    p.delete_digit(Unit::KiloPascal);
    assert_eq!(p, kpa(12));
}

#[test]
fn pressure_digit_that_overflows_is_ignored() {
    let mut p = kpa(2_000_000);
    p.append_digit(0, Unit::KiloPascal);
    assert_eq!(p, kpa(2_000_000));
    let mut q = kpa(214_748);
    q.append_digit(3, Unit::KiloPascal);
    assert_eq!(q, kpa(2_147_483));
}

#[test]
fn negative_pressures_edit_toward_zero() {
    let mut p = InputParam::Manifold(Pressure::from_unit(Unit::Pascal, -1999));
    p.delete_digit(Unit::KiloPascal);
    assert_eq!(p, kpa(0));
    let mut q = InputParam::Manifold(Pressure::from_unit(Unit::Pascal, -15));
    q.delete_digit(Unit::Pascal);
    assert_eq!(q, InputParam::Manifold(Pressure::from_unit(Unit::Pascal, -1)));
}

#[test]
fn render_text_of_each_kind() {
    assert_eq!(InputParam::Rpm(7000).render_text(Unit::Pascal), "7000");
    assert_eq!(InputParam::Ve(95).render_text(Unit::KiloPascal), "95");
    assert_eq!(kpa(200).render_text(Unit::KiloPascal), "200");
    assert_eq!(kpa(200).render_text(Unit::Pascal), "200000");
    let low = InputParam::Manifold(Pressure::from_unit(Unit::Pascal, -1500));
    assert_eq!(low.render_text(Unit::KiloPascal), "-1");
    assert_eq!(low.render_text(Unit::Pascal), "-1500");
}

#[test]
fn default_row_values() {
    let row = Row::default();
    assert_eq!(row.rpm, InputParam::Rpm(7000));
    assert_eq!(row.ve, InputParam::Ve(95));
    assert_eq!(row.map, kpa(200));
}

#[test]
fn row_iter_walks_fields_in_order() {
    let row = Row::default();
    let mut it = row.iter();
    assert_eq!(it.next(), Some(&InputParam::Rpm(7000)));
    assert_eq!(it.next(), Some(&InputParam::Ve(95)));
    assert_eq!(it.next(), Some(&kpa(200)));
    assert_eq!(it.next(), None);
    assert_eq!(it.next(), None);
}

#[test]
fn cloned_rows_are_independent() {
    let row = Row::default();
    let mut copy = row.clone();
    copy.rpm.append_digit(1, Unit::Pascal);
    assert_eq!(row.rpm, InputParam::Rpm(7000));
    assert_eq!(copy.rpm, InputParam::Rpm(70001));
}
