use gof_ui::Rect;

fn has_point(points: &Vec<(u16, u16)>, p: (u16, u16)) -> bool {
    points.iter().any(|q| *q == p)
}

#[test]
fn area_uses_diagonal_formula() {
    let r = Rect { x: 2, y: 1, width: 10, height: 5 };
    assert_eq!(r.area(), (10 - 2) * (5 - 1));
}

#[test]
fn contains_is_right_exclusive_bottom_inclusive() {
    let r = Rect { x: 0, y: 0, width: 10, height: 5 };
    assert!(r.contains((0, 0)));
    assert!(r.contains((9, 0)));
    assert!(!r.contains((10, 0)));
    assert!(r.contains((0, 5)));
    assert!(!r.contains((0, 6)));
}

#[test]
fn border_points_covers_perimeter() {
    let r = Rect { x: 1, y: 1, width: 3, height: 2 };
    let points = r.border_points();

    assert!(has_point(&points, (1, 1)));
    assert!(has_point(&points, (2, 1)));
    assert!(has_point(&points, (3, 1)));
    assert!(has_point(&points, (1, 3)));
    assert!(has_point(&points, (4, 1)));
    assert!(has_point(&points, (4, 3)));
    assert!(has_point(&points, (1, 2)));
    assert!(!has_point(&points, (2, 2)));
    assert!(!has_point(&points, (5, 1)));
}

#[test]
fn default_rect_is_zero() {
    let r = Rect::default();
    assert_eq!(r, Rect { x: 0, y: 0, width: 0, height: 0 });
}

#[test]
fn rect_new_sets_fields() {
    let r = Rect::new(3, 4, 5, 6);
    assert_eq!(r, Rect { x: 3, y: 4, width: 5, height: 6 });
}
