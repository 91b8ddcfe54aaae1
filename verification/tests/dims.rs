use hypr_rectangle::area::UsableArea;
use hypr_rectangle::dims::{calculate_dimensions, dimensions_in_range};
use hypr_rectangle::gaps::Gaps;

fn area(w: i32, h: i32) -> UsableArea {
    UsableArea {
        x: 0,
        y: 0,
        width: w,
        height: h,
    }
}

fn sym_gap(v: i32) -> Gaps {
    Gaps {
        top: v,
        right: v,
        bottom: v,
        left: v,
    }
}

#[test]
fn visible_gap_is_twice_gaps_in() {
    let d = calculate_dimensions(&area(1000, 800), &sym_gap(5));
    assert_eq!(d.gap_h, 10);
    assert_eq!(d.gap_v, 10);
}

#[test]
fn halves_sum_plus_gap_equals_width() {
    let d = calculate_dimensions(&area(1000, 800), &sym_gap(10));
    assert_eq!(d.half_width * 2 + d.gap_h, 1000);
}

#[test]
fn thirds_sum_plus_gaps_equals_width() {
    let d = calculate_dimensions(&area(999, 800), &sym_gap(3));
    assert_eq!(d.third_width * 3 + d.gap_h * 2, 999);
}

#[test]
fn two_third_is_two_thirds_plus_gap() {
    let d = calculate_dimensions(&area(900, 600), &sym_gap(5));
    assert_eq!(d.two_third_width, d.third_width * 2 + d.gap_h);
}

#[test]
fn gap_larger_than_area_falls_back_to_half() {
    let d = calculate_dimensions(&area(10, 10), &sym_gap(20));
    assert_eq!(d.half_width, 5);
    assert_eq!(d.half_height, 5);
}

#[test]
fn asymmetric_inner_gap_uses_max() {
    let gaps = Gaps {
        top: 2,
        right: 20,
        bottom: 2,
        left: 5,
    };
    let d = calculate_dimensions(&area(1000, 800), &gaps);
    assert_eq!(d.gap_h, 40);
    assert_eq!(d.gap_v, 4);
}

#[test]
fn zero_gap_halves_area_exactly() {
    let d = calculate_dimensions(&area(1000, 800), &sym_gap(0));
    assert_eq!(d.half_width, 500);
    assert_eq!(d.half_height, 400);
}

#[test]
fn minimum_one_pixel_dimensions() {
    let d = calculate_dimensions(&area(1, 1), &sym_gap(50));
    assert!(d.half_width >= 1);
    assert!(d.half_height >= 1);
    assert!(d.third_width >= 1);
}

#[test]
fn odd_width_leaves_one_pixel() {
    let d = calculate_dimensions(&area(1001, 801), &sym_gap(5));
    assert_eq!(d.half_width, 495);
    assert_eq!(1001 - (d.half_width * 2 + d.gap_h), 1);
    assert_eq!(d.half_height, 395);
}

#[test]
fn thirds_round_down() {
    let d = calculate_dimensions(&area(1000, 800), &sym_gap(5));
    assert_eq!(d.third_width, 326);
    assert_eq!(d.two_third_width, 662);
    assert_eq!(1000 - (d.third_width * 3 + d.gap_h * 2), 2);
}

#[test]
fn thirds_without_room_for_gaps_are_plain_thirds() {
    let d = calculate_dimensions(&area(30, 30), &sym_gap(10));
    assert_eq!(d.third_width, 10);
    assert_eq!(d.two_third_width, 40);
}

#[test]
fn negative_width_gives_one_pixel_tiles() {
    let d = calculate_dimensions(&area(-7, -3), &sym_gap(0));
    assert_eq!(d.half_width, 1);
    assert_eq!(d.half_height, 1);
    assert_eq!(d.third_width, 1);
}

#[test]
fn huge_gaps_are_out_of_range() {
    assert!(dimensions_in_range(&area(1000, 800), &sym_gap(5)));
    assert!(!dimensions_in_range(&area(1000, 800), &sym_gap(i32::MAX)));
    assert!(!dimensions_in_range(&area(1000, 800), &sym_gap(i32::MIN)));
}
