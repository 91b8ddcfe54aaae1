use hypr_rectangle::area::{
    calculate_usable_area, classify_layer, position_of_name, reserve_edges, usable_area_in_range,
    EdgeReservation, Rect, Reservations, UsableArea,
};
use hypr_rectangle::gaps::Gaps;

const MON: Rect = Rect {
    x: 0,
    y: 0,
    w: 1920,
    h: 1080,
};

fn sym_gap(v: i32) -> Gaps {
    Gaps {
        top: v,
        right: v,
        bottom: v,
        left: v,
    }
}

#[test]
fn fullscreen_layer_is_ignored() {
    let layer = Rect {
        x: 0,
        y: 0,
        w: 1920,
        h: 1080,
    };
    assert_eq!(classify_layer(MON, layer), EdgeReservation::Fullscreen);
}

#[test]
fn top_bar_reserves_top() {
    let waybar = Rect {
        x: 0,
        y: 0,
        w: 1920,
        h: 30,
    };
    assert_eq!(classify_layer(MON, waybar), EdgeReservation::Top(30));
}

#[test]
fn top_bar_with_small_offset_still_counts_as_top() {
    let waybar = Rect {
        x: 0,
        y: 4,
        w: 1920,
        h: 30,
    };
    assert_eq!(classify_layer(MON, waybar), EdgeReservation::Top(34));
}

#[test]
fn bottom_bar_reserves_bottom() {
    let dock = Rect {
        x: 0,
        y: 1040,
        w: 1920,
        h: 40,
    };
    assert_eq!(classify_layer(MON, dock), EdgeReservation::Bottom(40));
}

#[test]
fn left_vertical_bar_reserves_left() {
    let bar = Rect {
        x: 0,
        y: 0,
        w: 40,
        h: 1080,
    };
    assert_eq!(classify_layer(MON, bar), EdgeReservation::Left(40));
}

#[test]
fn floating_widget_reserves_nothing() {
    let notification = Rect {
        x: 500,
        y: 500,
        w: 300,
        h: 100,
    };
    assert_eq!(classify_layer(MON, notification), EdgeReservation::NoEdge);
}

#[test]
fn monitor_with_offset_classifies_correctly() {
    let mon = Rect {
        x: 1920,
        y: 0,
        w: 2560,
        h: 1440,
    };
    let waybar = Rect {
        x: 1920,
        y: 0,
        w: 2560,
        h: 36,
    };
    assert_eq!(classify_layer(mon, waybar), EdgeReservation::Top(36));
}

#[test]
fn right_vertical_bar_reserves_right() {
    let bar = Rect {
        x: 1870,
        y: 0,
        w: 50,
        h: 1080,
    };
    assert_eq!(classify_layer(MON, bar), EdgeReservation::Right(50));
}

#[test]
fn wide_layer_in_the_middle_reserves_nothing() {
    let banner = Rect {
        x: 0,
        y: 500,
        w: 1920,
        h: 50,
    };
    assert_eq!(classify_layer(MON, banner), EdgeReservation::NoEdge);
}

#[test]
fn layer_one_pixel_short_is_still_fullscreen() {
    let background = Rect {
        x: 0,
        y: 0,
        w: 1919,
        h: 1079,
    };
    assert_eq!(classify_layer(MON, background), EdgeReservation::Fullscreen);
}

#[test]
fn bar_above_the_monitor_counts_from_the_edge() {
    let bar = Rect {
        x: 0,
        y: -10,
        w: 1920,
        h: 30,
    };
    assert_eq!(classify_layer(MON, bar), EdgeReservation::Top(30));
}

#[test]
fn largest_reservation_per_edge_wins() {
    let layers = vec![
        Rect { x: 0, y: 0, w: 1920, h: 30 },
        Rect { x: 0, y: 0, w: 1920, h: 45 },
        Rect { x: 0, y: 1040, w: 1920, h: 40 },
        Rect { x: 0, y: 0, w: 1920, h: 1080 },
        Rect { x: 500, y: 500, w: 300, h: 100 },
    ];
    assert_eq!(
        reserve_edges(MON, &layers),
        Reservations { top: 45, bottom: 40, left: 0, right: 0 }
    );
}

#[test]
fn usable_area_subtracts_bar_and_outer_gaps() {
    let layers = vec![Rect { x: 0, y: 0, w: 1920, h: 30 }];
    assert!(usable_area_in_range(MON, &layers, &sym_gap(10)));
    assert_eq!(
        calculate_usable_area(MON, &layers, &sym_gap(10)),
        UsableArea { x: 10, y: 40, width: 1900, height: 1030 }
    );
}

#[test]
fn usable_area_without_layers_is_monitor_less_gaps() {
    let mon = Rect { x: 1920, y: 100, w: 2560, h: 1440 };
    let gaps = Gaps { top: 1, right: 2, bottom: 3, left: 4 };
    assert_eq!(
        calculate_usable_area(mon, &vec![], &gaps),
        UsableArea { x: 1924, y: 101, width: 2554, height: 1436 }
    );
}

#[test]
fn outer_gaps_that_do_not_fit_are_skipped() {
    let mon = Rect { x: 0, y: 0, w: 20, h: 100 };
    assert_eq!(
        calculate_usable_area(mon, &vec![], &sym_gap(10)),
        UsableArea { x: 0, y: 10, width: 20, height: 80 }
    );
}

#[test]
fn usable_area_is_at_least_one_pixel() {
    let mon = Rect { x: 0, y: 0, w: 1000, h: 1000 };
    let layers = vec![Rect { x: 0, y: 0, w: 1000, h: 600 }, Rect { x: 0, y: 400, w: 1000, h: 600 }];
    let area = calculate_usable_area(mon, &layers, &sym_gap(0));
    assert_eq!(area.height, 1);
    assert_eq!(area.y, 600);
}

#[test]
fn usable_area_out_of_range_is_detected() {
    let mon = Rect { x: i32::MAX, y: 0, w: 100, h: 100 };
    assert!(!usable_area_in_range(mon, &vec![], &sym_gap(5)));
    let bar = Rect { x: 0, y: 50, w: 1900, h: i32::MAX };
    assert!(!usable_area_in_range(MON, &vec![bar], &sym_gap(0)));
}

#[test]
fn position_of_name_finds_first_match() {
    let names = vec!["DP-1".to_string(), "HDMI-A-1".to_string(), "DP-1".to_string()];
    assert_eq!(position_of_name(&names, "DP-1"), Some(0));
    assert_eq!(position_of_name(&names, "HDMI-A-1"), Some(1));
    assert_eq!(position_of_name(&names, "eDP-1"), None);
}
