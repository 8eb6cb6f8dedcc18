use mouse_trail::geometry::{Point, RectWH};

#[test]
fn contains_is_half_open() {
    let r = RectWH { x: 10, y: 20, w: 5, h: 3 };
    assert!(r.contains(Point { x: 10, y: 20 }));
    assert!(r.contains(Point { x: 14, y: 22 }));
    assert!(!r.contains(Point { x: 15, y: 22 }));
    assert!(!r.contains(Point { x: 14, y: 23 }));
    assert!(!r.contains(Point { x: 9, y: 21 }));
    assert!(!r.contains(Point { x: 12, y: 19 }));
}

#[test]
fn empty_rect_contains_nothing() {
    let r = RectWH { x: 0, y: 0, w: 0, h: 0 };
    assert!(!r.contains(Point { x: 0, y: 0 }));
    let n = RectWH { x: 5, y: 5, w: -3, h: 4 };
    assert!(!n.contains(Point { x: 4, y: 6 }));
}

#[test]
fn track_pos_centres_the_box() {
    let mut r = RectWH { x: 0, y: 0, w: 20, h: 20 };
    r.track_pos(Point { x: 100, y: 50 });
    assert_eq!(r, RectWH { x: 90, y: 40, w: 20, h: 20 });
    let mut odd = RectWH { x: 7, y: 7, w: 201, h: 71 };
    odd.track_pos(Point { x: 300, y: 300 });
    assert_eq!(odd, RectWH { x: 200, y: 265, w: 201, h: 71 });
}

#[test]
fn track_pos_rounds_negative_sizes_toward_zero() {
    let mut r = RectWH { x: 0, y: 0, w: -3, h: -5 };
    r.track_pos(Point { x: 10, y: 10 });
    assert_eq!(r, RectWH { x: 11, y: 12, w: -3, h: -5 });
}

#[test]
fn contains_stops_before_the_bottom_edge() {
    let r = RectWH { x: 0, y: i32::MAX - 5, w: 10, h: 10 };
    assert!(r.contains_checkable(Point { x: 100, y: 0 }));
    assert!(!r.contains(Point { x: 100, y: 0 }));
    assert!(!r.contains_checkable(Point { x: 5, y: 0 }));
    let wide = RectWH { x: i32::MAX - 5, y: 0, w: 10, h: 10 };
    assert!(!wide.contains_checkable(Point { x: 0, y: 0 }));
}
