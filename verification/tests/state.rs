use hypr_rectangle::state::{Geometry, State, MAX_ENTRIES};

fn geom(x: i32) -> Geometry {
    Geometry {
        x,
        y: 0,
        width: 100,
        height: 100,
    }
}

#[test]
fn record_then_take_returns_geometry() {
    let mut s = State::default();
    s.record("0xdead", geom(1));
    assert_eq!(s.take("0xdead"), Some(geom(1)));
    assert_eq!(s.take("0xdead"), None);
}

#[test]
fn record_twice_keeps_latest() {
    let mut s = State::default();
    s.record("0xdead", geom(1));
    s.record("0xdead", geom(2));
    assert_eq!(s.take("0xdead"), Some(geom(2)));
}

#[test]
fn ring_buffer_drops_oldest() {
    let mut s = State::default();
    for i in 0..(MAX_ENTRIES as i32 + 5) {
        s.record(&format!("0x{}", i), geom(i));
    }
    assert_eq!(s.entries.len(), MAX_ENTRIES);
    assert_eq!(s.take("0x0"), None);
    assert_eq!(
        s.take(&format!("0x{}", MAX_ENTRIES as i32 + 4)),
        Some(geom(MAX_ENTRIES as i32 + 4))
    );
}

#[test]
fn take_of_unknown_window_leaves_history() {
    let mut s = State::default();
    s.record("0xa", geom(1));
    s.record("0xb", geom(2));
    assert_eq!(s.take("0xc"), None);
    assert_eq!(s.entries.len(), 2);
    assert_eq!(s.entries[0].address, "0xa");
    assert_eq!(s.entries[1].address, "0xb");
}

#[test]
fn record_moves_window_to_newest() {
    let mut s = State::default();
    s.record("0xa", geom(1));
    s.record("0xb", geom(2));
    s.record("0xa", geom(3));
    let order: Vec<&str> = s.entries.iter().map(|e| e.address.as_str()).collect();
    assert_eq!(order, vec!["0xb", "0xa"]);
    assert_eq!(s.entries[1].geometry, geom(3));
}

#[test]
fn full_history_forgets_only_the_oldest() {
    let mut s = State::default();
    for i in 0..(MAX_ENTRIES as i32) {
        s.record(&format!("0x{}", i), geom(i));
    }
    s.record("0xnew", geom(-1));
    assert_eq!(s.entries.len(), MAX_ENTRIES);
    assert_eq!(s.entries[0].address, "0x1");
    assert_eq!(s.entries[MAX_ENTRIES - 1].address, "0xnew");
}

#[test]
fn take_removes_only_the_oldest_duplicate() {
    // A history read back from disk may hold a window twice.
    let mut s = State::default();
    s.record("0xa", geom(1));
    s.record("0xb", geom(2));
    s.entries.push(hypr_rectangle::state::Entry { address: "0xa".to_string(), geometry: geom(9) });
    assert_eq!(s.take("0xa"), Some(geom(1)));
    assert_eq!(s.take("0xa"), Some(geom(9)));
    assert_eq!(s.take("0xa"), None);
}
