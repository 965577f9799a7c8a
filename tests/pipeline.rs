use livechart::bounds::Bounds;
use livechart::chart::{label_parts, labels, palette, ChartList, LabelText, Options};
use livechart::dirty::DirtyTracker;
use livechart::parse::{parse_decimal, parse_field, parse_line, SCALE};
use livechart::project::{moving_sum, Point, Selector};
use livechart::series::Series;
use livechart::viewport::{anchor, map_point};

fn records(rows: &[&[i64]]) -> Vec<Vec<i64>> {
    rows.iter().map(|r| r.to_vec()).collect()
}

fn selector(x: Option<usize>, y: &[usize]) -> Selector {
    Selector { x, y: y.to_vec() }
}

#[test]
fn parse_decimal_field() {
    assert_eq!(parse_line(",", "3.14"), vec![3_140_000]);
}

#[test]
fn parse_timestamp_field() {
    assert_eq!(parse_line(",", "2024-01-01 00:00:00"), vec![1_704_067_200 * SCALE]);
}

#[test]
fn parse_garbage_field_is_zero() {
    assert_eq!(parse_line(",", "abc"), vec![0]);
}

#[test]
fn parse_several_fields() {
    assert_eq!(parse_line(",", "1,2.5,x,-0.25"), vec![SCALE, 2_500_000, 0, -250_000]);
    assert_eq!(parse_line("\t", "7\t8"), vec![7 * SCALE, 8 * SCALE]);
    assert_eq!(parse_line(";", ""), vec![0]);
}

#[test]
fn parse_decimal_forms() {
    assert_eq!(parse_decimal("+12"), Some(12 * SCALE));
    assert_eq!(parse_decimal(".5"), Some(500_000));
    assert_eq!(parse_decimal("5."), Some(5 * SCALE));
    assert_eq!(parse_decimal("1.1234567"), Some(1_123_456));
    assert_eq!(parse_decimal("-"), None);
    assert_eq!(parse_decimal("."), None);
    assert_eq!(parse_decimal("1.2.3"), None);
    assert_eq!(parse_decimal("99999999999999"), None);
    assert_eq!(parse_field("99999999999999"), 0);
    assert_eq!(parse_field("1970-01-01 00:01:00"), 60 * SCALE);
}

#[test]
fn series_keeps_prefix() {
    let mut s = Series::new();
    s.push(vec![1, 2]);
    let first = s.snapshot();
    s.push(vec![3]);
    let second = s.snapshot();
    assert_eq!(s.len(), 2);
    assert_eq!(first, vec![vec![1, 2]]);
    assert_eq!(second[..first.len()], first[..]);
    assert_eq!(second, vec![vec![1, 2], vec![3]]);
}

#[test]
fn project_without_x_field_uses_positions() {
    let snap = records(&[&[5, 6], &[7, 8], &[9, 10], &[11, 12]]);
    let pts = selector(None, &[1]).project_all(&snap);
    assert_eq!(pts.len(), 4);
    let xs: Vec<i64> = pts.iter().map(|p| p.x).collect();
    assert_eq!(xs, vec![0, 1, 2, 3]);
    assert_eq!(pts[2].ys, vec![10]);
}

#[test]
fn project_with_x_field_and_short_records() {
    let snap = records(&[&[5, 6, 7], &[8]]);
    let pts = selector(Some(1), &[2, 0]).project_all(&snap);
    assert_eq!(pts[0].x, 6);
    assert_eq!(pts[0].ys, vec![7, 5]);
    assert_eq!(pts[1].x, 0);
    assert_eq!(pts[1].ys, vec![0, 8]);
}

#[test]
fn window_of_three_over_ten() {
    let raw: Vec<Point> = (0..10).map(|i| Point { x: i * 10, ys: vec![i, 100 * i] }).collect();
    let out = moving_sum(&raw, 3, 2);
    assert_eq!(out.len(), 6);
    for (k, p) in out.iter().enumerate() {
        let k = k as i64;
        assert_eq!(p.x, (k + 2) * 10);
        assert_eq!(p.ys, vec![3 * k + 3, 100 * (3 * k + 3)]);
    }
}

#[test]
fn window_longer_than_series_is_empty() {
    let raw: Vec<Point> = (0..4).map(|i| Point { x: i, ys: vec![i] }).collect();
    assert_eq!(moving_sum(&raw, 3, 1).len(), 0);
    assert_eq!(moving_sum(&raw, 5, 1).len(), 0);
    assert_eq!(moving_sum(&raw, 2, 1).len(), 1);
}

#[test]
fn window_sum_saturates() {
    let raw: Vec<Point> = (0..5).map(|i| Point { x: i, ys: vec![i64::MAX] }).collect();
    let out = moving_sum(&raw, 2, 1);
    assert_eq!(out[0].ys, vec![i64::MAX]);
}

#[test]
fn bounds_of_three_points() {
    let b = Bounds::new().update(1, 5).update(3, 2).update(7, 9);
    assert!(b.is_init);
    assert_eq!((b.minx, b.maxx, b.miny, b.maxy), (1, 7, 2, 9));
    let wider = b.update(4, 4);
    assert_eq!((wider.minx, wider.maxx, wider.miny, wider.maxy), (1, 7, 2, 9));
    let wider = b.update(-1, 20);
    assert_eq!((wider.minx, wider.maxx, wider.miny, wider.maxy), (-1, 7, 2, 20));
    assert!(!Bounds::default().is_init);
}

#[test]
fn bounds_over_points() {
    let pts = vec![Point { x: 1, ys: vec![5, 0] }, Point { x: 3, ys: vec![2, 4] }, Point { x: 7, ys: vec![9, 1] }];
    let b = Bounds::new().include_points(&pts);
    assert_eq!((b.minx, b.maxx, b.miny, b.maxy), (1, 7, 0, 9));
    assert!(!Bounds::new().include_points(&vec![]).is_init);
}

#[test]
fn viewport_corners() {
    let b = Bounds::new().update(0, -50).update(100, 50);
    assert_eq!(map_point(0, -50, &b, (800, 700), 10), (10, 690));
    assert_eq!(map_point(100, 50, &b, (800, 700), 10), (790, 10));
    assert_eq!(map_point(50, 0, &b, (800, 700), 10), (400, 350));
}

#[test]
fn viewport_degenerate_axis() {
    let b = Bounds::new().update(5, 0).update(5, 10);
    let a = map_point(5, 0, &b, (800, 700), 10);
    let c = map_point(5, 10, &b, (800, 700), 10);
    assert_eq!(a.0, 400);
    assert_eq!(c.0, 400);
    assert_eq!(a.1, 690);
    assert_eq!(c.1, 10);
}

#[test]
fn label_anchoring() {
    assert_eq!(anchor(10, 800, 40), 10);
    assert_eq!(anchor(-10, 800, 40), 750);
    assert_eq!(anchor(-20, 700, 20), 660);
}

#[test]
fn dirty_tracker_rules() {
    let mut t = DirtyTracker::new();
    assert!(t.decide((0, 0), &vec![0]));
    assert!(!t.decide((0, 0), &vec![0]));
    assert!(t.decide((0, 0), &vec![3]));
    assert!(!t.decide((0, 0), &vec![3]));
    assert!(!t.decide((0, 0), &vec![2]));
    assert!(t.decide((640, 480), &vec![3]));
    assert!(!t.decide((640, 480), &vec![3, 0]));
    assert!(t.decide((640, 480), &vec![3, 1]));
}

#[test]
fn palette_wraps() {
    assert_eq!(palette(0), (255, 100, 30, 200));
    assert_eq!(palette(5), palette(0));
    assert_eq!(palette(4), (153, 78, 85, 200));
}

#[test]
fn corner_and_title_labels() {
    let b = Bounds::new().update(1, 2).update(3, 4);
    let ls = labels(&b, &Some("load".to_string()));
    assert_eq!(ls.len(), 5);
    assert_eq!((ls[0].x, ls[0].y), (10, 10));
    assert!(matches!(ls[0].text, LabelText::Value(4)));
    assert_eq!((ls[1].x, ls[1].y), (10, -20));
    assert!(matches!(ls[1].text, LabelText::Value(2)));
    assert!(matches!(ls[2].text, LabelText::Value(1)));
    assert_eq!((ls[3].x, ls[3].y), (-10, -10));
    assert!(matches!(ls[3].text, LabelText::Value(3)));
    match &ls[4].text {
        LabelText::Title(t) => assert_eq!(t, "load"),
        LabelText::Value(_) => panic!("title label expected"),
    }
    assert_eq!(labels(&b, &None).len(), 4);
}

#[test]
fn frames_drawn_only_when_needed() {
    let opts = Options { fields: selector(None, &[0, 1]), average: None, title: None };
    let mut list = ChartList::new();
    list.add();
    list.add();
    let mut a = records(&[&[0, 10], &[5, 20]]);
    let b = records(&[&[1, 1]]);
    let f = list.draw(&vec![a.clone(), b.clone()], (100, 100), &opts).unwrap();
    assert_eq!(f.points.len(), 2);
    assert_eq!((f.bounds.minx, f.bounds.maxx, f.bounds.miny, f.bounds.maxy), (0, 1, 0, 20));
    let colors: Vec<usize> = f.lines.iter().flat_map(|row| row.iter().map(|l| l.color)).collect();
    assert_eq!(colors, vec![0, 1, 2, 3]);
    assert_eq!(f.lines[0][1].points, vec![(10, 50), (90, 10)]);
    assert_eq!(f.labels.len(), 4);
    assert!(list.draw(&vec![a.clone(), b.clone()], (100, 100), &opts).is_none());
    a.push(vec![6, 30]);
    assert!(list.draw(&vec![a.clone(), b.clone()], (100, 100), &opts).is_some());
    assert!(list.draw(&vec![a.clone(), b.clone()], (120, 100), &opts).is_some());
}

#[test]
fn colors_continue_across_charts() {
    let opts = Options { fields: selector(None, &[0, 1, 2]), average: Some(1), title: Some("t".to_string()) };
    let mut list = ChartList::new();
    list.add();
    list.add();
    let a = records(&[&[1, 2, 3], &[4, 5, 6], &[7, 8, 9]]);
    let f = list.draw(&vec![a.clone(), a.clone()], (50, 50), &opts).unwrap();
    let colors: Vec<usize> = f.lines.iter().flat_map(|row| row.iter().map(|l| l.color)).collect();
    assert_eq!(colors, vec![0, 1, 2, 3, 4, 0]);
    assert_eq!(f.points[0].len(), 1);
    assert_eq!(f.points[0][0].x, 0);
    assert_eq!(f.points[0][0].ys, vec![1, 2, 3]);
    assert_eq!(f.labels.len(), 5);
}

#[test]
fn label_values_round_to_hundredths() {
    assert_eq!(label_parts(3_140_000), (false, 3, 14));
    assert_eq!(label_parts(2_675_000), (false, 2, 68));
    assert_eq!(label_parts(-1_004_999), (true, 1, 0));
    assert_eq!(label_parts(999_999_999), (false, 1000, 0));
    assert_eq!(label_parts(i64::MIN), (true, 9_223_372_036_854, 78));
}
