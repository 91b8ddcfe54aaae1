use hypr_rectangle::area::UsableArea;
use hypr_rectangle::cli::Command;
use hypr_rectangle::dispatch::{
    execute, i16_or_overflow, placement_in_range, to_i16_tuple, Coordinate, ExecuteError,
    I16Overflow,
};
use hypr_rectangle::gaps::Gaps;
use hypr_rectangle::state::Geometry;

fn gaps(v: i32) -> Gaps {
    Gaps { top: v, right: v, bottom: v, left: v }
}

const AREA: UsableArea = UsableArea { x: 10, y: 40, width: 1000, height: 800 };

fn place(cmd: Command) -> Geometry {
    assert!(placement_in_range(cmd, &AREA, &gaps(5)));
    execute(cmd, &AREA, &gaps(5)).unwrap()
}

fn g(x: i32, y: i32, width: i32, height: i32) -> Geometry {
    Geometry { x, y, width, height }
}

#[test]
fn halves_are_side_by_side_with_visible_gap() {
    assert_eq!(place(Command::Left), g(10, 40, 495, 800));
    assert_eq!(place(Command::Right), g(515, 40, 495, 800));
    assert_eq!(place(Command::Up), g(10, 40, 1000, 395));
    assert_eq!(place(Command::Down), g(10, 445, 1000, 395));
}

#[test]
fn quarters_cross_halves() {
    assert_eq!(place(Command::TopLeft), g(10, 40, 495, 395));
    assert_eq!(place(Command::TopRight), g(515, 40, 495, 395));
    assert_eq!(place(Command::BottomLeft), g(10, 445, 495, 395));
    assert_eq!(place(Command::BottomRight), g(515, 445, 495, 395));
}

#[test]
fn thirds_and_two_thirds() {
    assert_eq!(place(Command::LeftThird), g(10, 40, 326, 800));
    assert_eq!(place(Command::CenterThird), g(346, 40, 326, 800));
    assert_eq!(place(Command::RightThird), g(682, 40, 326, 800));
    assert_eq!(place(Command::LeftTwoThird), g(10, 40, 662, 800));
    assert_eq!(place(Command::RightTwoThird), g(346, 40, 662, 800));
}

#[test]
fn maximize_and_center() {
    assert_eq!(place(Command::Maximize), g(10, 40, 1000, 800));
    assert_eq!(place(Command::Center), g(135, 140, 750, 600));
}

#[test]
fn center_of_odd_area_rounds_down() {
    let area = UsableArea { x: 0, y: 0, width: 101, height: 99 };
    assert_eq!(execute(Command::Center, &area, &gaps(0)), Ok(g(13, 12, 75, 74)));
}

#[test]
fn restore_is_not_a_snap() {
    assert_eq!(execute(Command::Restore, &AREA, &gaps(5)), Err(ExecuteError::RestoreNotHandled));
}

#[test]
fn placement_out_of_range_is_detected() {
    let far = UsableArea { x: i32::MAX - 10, y: 0, width: 1000, height: 800 };
    assert!(placement_in_range(Command::Left, &far, &gaps(5)));
    assert!(!placement_in_range(Command::Right, &far, &gaps(5)));
    assert!(!placement_in_range(Command::Left, &AREA, &gaps(i32::MAX)));
}

#[test]
fn i16_narrowing() {
    assert_eq!(i16_or_overflow(-32768, Coordinate::X), Ok(-32768));
    assert_eq!(i16_or_overflow(32767, Coordinate::Y), Ok(32767));
    assert_eq!(
        i16_or_overflow(32768, Coordinate::Width),
        Err(I16Overflow { what: Coordinate::Width, value: 32768 })
    );
}

#[test]
fn tuple_narrowing_reports_first_overflow() {
    assert_eq!(to_i16_tuple(1, 2, 3, 4), Ok((1, 2, 3, 4)));
    assert_eq!(
        to_i16_tuple(1, -40000, 50000, 4),
        Err(I16Overflow { what: Coordinate::Y, value: -40000 })
    );
    assert_eq!(
        to_i16_tuple(1, 2, 3, 40000),
        Err(I16Overflow { what: Coordinate::Height, value: 40000 })
    );
}

#[test]
fn coordinate_names() {
    assert_eq!(Coordinate::X.name(), "x");
    assert_eq!(Coordinate::Height.name(), "height");
}
