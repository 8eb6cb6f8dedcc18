use mouse_trail::geometry::{Point, PointAndDt};
use mouse_trail::trail::{best_trail_checkable, find_best_trail, trail_to_store};
use mouse_trail::trail_name::{parse_trail_file_name, trail_file_name};

fn p(x: i32, y: i32) -> Point {
    Point { x, y }
}

#[test]
fn file_name_format() {
    assert_eq!(trail_file_name(p(1, 2), p(30, 400)), b"1-2-30-400.json".to_vec());
    assert_eq!(trail_file_name(p(-1, 0), p(5, -6)), b"-1-0-5--6.json".to_vec());
}

#[test]
fn file_name_reads_back_for_non_negative_points() {
    for (a, b) in [(p(0, 0), p(0, 0)), (p(1, 2), p(3, 4)), (p(1919, 1079), p(0, 7)), (p(i32::MAX, 3), p(4, i32::MAX))] {
        assert_eq!(parse_trail_file_name(&trail_file_name(a, b)), Some((a, b)));
    }
}

#[test]
fn file_name_with_negative_point_is_not_read_back() {
    assert_eq!(parse_trail_file_name(&trail_file_name(p(-1, 2), p(3, 4))), None);
    assert_eq!(parse_trail_file_name(&trail_file_name(p(1, 2), p(3, -4))), None);
}

#[test]
fn parses_only_trail_names() {
    assert_eq!(parse_trail_file_name(b"10-20-30-40.json"), Some((p(10, 20), p(30, 40))));
    assert_eq!(parse_trail_file_name(b"+1-2-3-4.json"), Some((p(1, 2), p(3, 4))));
    assert_eq!(parse_trail_file_name(b"1-2-3.json"), None);
    assert_eq!(parse_trail_file_name(b"1-2-3-4-5.json"), None);
    assert_eq!(parse_trail_file_name(b"1-2-3-4.txt"), None);
    assert_eq!(parse_trail_file_name(b"1-2-3-4"), None);
    assert_eq!(parse_trail_file_name(b"a-2-3-4.json"), None);
    assert_eq!(parse_trail_file_name(b"1-2-3-.json"), None);
    assert_eq!(parse_trail_file_name(b".json"), None);
    assert_eq!(parse_trail_file_name(b"json"), None);
    assert_eq!(parse_trail_file_name(b"1-2-3-99999999999.json"), None);
}

#[test]
fn short_recordings_are_not_stored() {
    assert!(trail_to_store(&[]).is_none());
    assert!(trail_to_store(&[(p(1, 1), 5)]).is_none());
}

#[test]
fn stored_trail_keeps_every_sample_in_milliseconds() {
    let rec = [(p(5, 6), 1_999_999u64), (p(7, 8), 2_000_000), (p(9, 10), 0)];
    let (name, trail) = trail_to_store(&rec).unwrap();
    assert_eq!(name, b"5-6-9-10.json".to_vec());
    assert_eq!(
        trail,
        vec![
            PointAndDt { x: 5, y: 6, dt: 1 },
            PointAndDt { x: 7, y: 8, dt: 2 },
            PointAndDt { x: 9, y: 10, dt: 0 },
        ]
    );
}

#[test]
fn stored_delay_is_cut_to_32_bits() {
    let ms: u64 = (1u64 << 32) + 5;
    let rec = [(p(0, 0), ms * 1_000_000), (p(1, 1), 0)];
    let (_, trail) = trail_to_store(&rec).unwrap();
    assert_eq!(trail[0].dt, 5);
}

fn names(list: &[&str]) -> Vec<Vec<u8>> {
    list.iter().map(|s| s.as_bytes().to_vec()).collect()
}

#[test]
fn best_trail_has_closest_spans() {
    // wanted spans: 100 x 50
    let n = names(&["0-0-10-10.json", "5-5-105-60.json", "readme.txt", "0-0-300-0.json"]);
    assert!(best_trail_checkable(p(0, 0), p(100, 50), &n));
    assert_eq!(find_best_trail(p(0, 0), p(100, 50), &n), Some(1));
}

#[test]
fn best_trail_ties_go_to_the_first() {
    // spans 10x10 and 30x30 are equally far from 20x20
    let n = names(&["0-0-30-30.json", "0-0-10-10.json"]);
    assert_eq!(find_best_trail(p(0, 0), p(20, 20), &n), Some(0));
    let m = names(&["0-0-10-10.json", "0-0-30-30.json"]);
    assert_eq!(find_best_trail(p(0, 0), p(20, 20), &m), Some(0));
}

#[test]
fn spans_are_direction_free() {
    let n = names(&["0-0-50-50.json", "100-100-0-0.json"]);
    assert_eq!(find_best_trail(p(200, 200), p(100, 100), &n), Some(1));
}

#[test]
fn no_trail_names_no_best() {
    let n = names(&["a.json", "notes"]);
    assert_eq!(find_best_trail(p(0, 0), p(1, 1), &n), None);
    assert_eq!(find_best_trail(p(0, 0), p(1, 1), &Vec::new()), None);
}

#[test]
fn score_overflow_is_detected() {
    let huge = names(&["0-0-2147483647-0.json", "0-0-1-1.json"]);
    assert!(!best_trail_checkable(p(0, 0), p(0, 0), &huge));
    // a single trail is never scored
    let one = names(&["0-0-2147483647-0.json"]);
    assert!(best_trail_checkable(p(0, 0), p(0, 0), &one));
    assert_eq!(find_best_trail(p(0, 0), p(0, 0), &one), Some(0));
    // the wanted spans are always computed
    assert!(!best_trail_checkable(p(i32::MIN, 0), p(0, 0), &one));
}
