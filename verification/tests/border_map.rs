use gof_ui::border_glyph;
use gof_ui::Border;
use gof_ui::BorderDirection;
use gof_ui::BorderStyle;

fn direction_at(border: &Border, p: (u16, u16)) -> Option<BorderDirection> {
    border.entries().iter().find(|e| e.0 == p).map(|e| e.1)
}

#[test]
fn plus_shape_classifies_junction_and_vertical() {
    let mut border = Border::new();
    border.append(vec![(1, 0), (0, 1), (1, 1), (2, 1), (1, 2)]);

    assert_eq!(direction_at(&border, (1, 1)), Some(BorderDirection::Junction));
    assert_eq!(direction_at(&border, (1, 0)), Some(BorderDirection::Vertical));
    assert_eq!(direction_at(&border, (0, 1)), Some(BorderDirection::Horizontal));
}

#[test]
fn insertion_order_does_not_change_directions() {
    let mut first = Border::new();
    first.append(vec![(1, 0), (0, 1), (1, 1), (2, 1), (1, 2)]);

    let mut second = Border::new();
    second.append(vec![(1, 2), (2, 1), (1, 1), (0, 1), (1, 0)]);

    for p in [(1, 0), (0, 1), (1, 1), (2, 1), (1, 2)] {
        assert_eq!(direction_at(&first, p), direction_at(&second, p));
    }
}

#[test]
fn rectangle_perimeter_gets_corners() {
    let mut border = Border::new();
    let points: Vec<(u16, u16)> = vec![
        (1, 1), (2, 1), (3, 1),
        (1, 2), (3, 2),
        (1, 3), (2, 3), (3, 3),
    ];
    border.append(points);

    assert_eq!(direction_at(&border, (1, 1)), Some(BorderDirection::CornerDownRight));
    assert_eq!(direction_at(&border, (3, 1)), Some(BorderDirection::CornerDownLeft));
    assert_eq!(direction_at(&border, (1, 3)), Some(BorderDirection::CornerUpRight));
    assert_eq!(direction_at(&border, (3, 3)), Some(BorderDirection::CornerUpLeft));
    assert_eq!(direction_at(&border, (2, 1)), Some(BorderDirection::Horizontal));
    assert_eq!(direction_at(&border, (1, 2)), Some(BorderDirection::Vertical));
}

#[test]
fn lone_point_is_blank() {
    let mut border = Border::new();
    border.append(vec![(5, 5)]);
    assert_eq!(direction_at(&border, (5, 5)), Some(BorderDirection::Null));
}

#[test]
fn glyphs_match_their_sets() {
    assert_eq!(border_glyph(BorderStyle::Light, BorderDirection::Horizontal), "\u{2500}");
    assert_eq!(border_glyph(BorderStyle::Light, BorderDirection::Junction), "\u{253c}");
    assert_eq!(border_glyph(BorderStyle::Heavy, BorderDirection::Horizontal), "\u{2501}");
    assert_eq!(border_glyph(BorderStyle::Heavy, BorderDirection::Vertical), "\u{2503}");
    assert_eq!(border_glyph(BorderStyle::Light, BorderDirection::Null), " ");
}
