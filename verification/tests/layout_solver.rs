use gof_ui::get_window_dimensions;
use gof_ui::Rect;
use gof_ui::UiError;
use gof_ui::WindowAlignment;
use gof_ui::WindowInfo;

#[test]
fn single_fill_window_gets_whole_area() {
    let info = WindowInfo::new().fill();
    let used: Vec<Rect> = Vec::new();

    let rect = get_window_dimensions(info, &used, (80, 24)).unwrap();
    assert_eq!(rect, Rect { x: 0, y: 0, width: 80, height: 23 });
}

#[test]
fn second_window_starts_after_first() {
    let a = Rect { x: 0, y: 0, width: 10, height: 5 };
    let used = vec![a];
    let info = WindowInfo::new().fill_horizontal(5);

    let rect = get_window_dimensions(info, &used, (80, 24)).unwrap();
    assert_eq!(rect.x, 10);
    assert_eq!(rect, Rect { x: 10, y: 0, width: 70, height: 5 });
}

#[test]
fn explicit_origin_and_bounds_used_verbatim() {
    let info = WindowInfo::new().origin(5, 7).bounds(3, 3);
    let used: Vec<Rect> = Vec::new();

    let rect = get_window_dimensions(info, &used, (80, 24)).unwrap();
    assert_eq!(rect, Rect { x: 5, y: 7, width: 3, height: 3 });
}

#[test]
fn bottom_aligned_bounds_shift_up_by_height() {
    let info = WindowInfo::new().align(WindowAlignment::Bottom).bounds(10, 3);
    let used: Vec<Rect> = Vec::new();

    let rect = get_window_dimensions(info, &used, (80, 24)).unwrap();
    assert_eq!(rect, Rect { x: 0, y: 21, width: 10, height: 3 });
}

#[test]
fn bottom_window_taller_than_terminal_is_infeasible() {
    let info = WindowInfo::new().align(WindowAlignment::Bottom).bounds(5, 30);
    let used: Vec<Rect> = Vec::new();

    let r = get_window_dimensions(info, &used, (80, 24));
    assert_eq!(r, Err(UiError::LayoutInfeasible));
}

#[test]
fn fill_vertical_keeps_width_and_fills_height() {
    let a = Rect { x: 0, y: 0, width: 10, height: 5 };
    let used = vec![a];
    let info = WindowInfo::new().fill_vertical(4);

    let rect = get_window_dimensions(info, &used, (80, 24)).unwrap();
    assert_eq!(rect, Rect { x: 10, y: 0, width: 4, height: 23 });
}

#[test]
fn fill_width_stops_at_nearest_obstruction() {
    let a = Rect { x: 0, y: 0, width: 10, height: 5 };
    let b = Rect { x: 40, y: 0, width: 10, height: 10 };
    let used = vec![a, b];
    let info = WindowInfo::new().fill_horizontal(5);

    let rect = get_window_dimensions(info, &used, (80, 24)).unwrap();
    assert_eq!(rect, Rect { x: 10, y: 0, width: 30, height: 5 });
}

fn rects_disjoint(a: Rect, b: Rect) -> bool {
    let cols_apart = a.x as u32 + a.width as u32 <= b.x as u32
        || b.x as u32 + b.width as u32 <= a.x as u32;
    let rows_apart = a.y as u32 + a.height as u32 <= b.y as u32
        || b.y as u32 + b.height as u32 <= a.y as u32;
    cols_apart || rows_apart
}

#[test]
fn sample_layout_rects_are_pairwise_disjoint() {
    let term = (80u16, 24u16);
    let mut used: Vec<Rect> = Vec::new();

    let infos = vec![
        WindowInfo::new().fill_vertical(32),
        WindowInfo::new().fill_horizontal(2),
        WindowInfo::new().align(WindowAlignment::Bottom).fill_horizontal(3),
        WindowInfo::new().fill_vertical(4),
        WindowInfo::new().fill(),
    ];

    for info in infos {
        let rect = get_window_dimensions(info, &used, term).unwrap();
        used.push(rect);
    }

    assert_eq!(used[0], Rect { x: 0, y: 0, width: 32, height: 23 });
    assert_eq!(used[1], Rect { x: 32, y: 0, width: 48, height: 2 });
    assert_eq!(used[2], Rect { x: 32, y: 20, width: 48, height: 3 });
    assert_eq!(used[3], Rect { x: 32, y: 2, width: 4, height: 18 });
    assert_eq!(used[4], Rect { x: 36, y: 2, width: 44, height: 18 });

    for i in 0..used.len() {
        for j in 0..used.len() {
            if i != j {
                assert!(rects_disjoint(used[i], used[j]));
            }
        }
    }
}

#[test]
fn smallest_terminal_still_places_a_fill() {
    let info = WindowInfo::new().fill();
    let used: Vec<Rect> = Vec::new();

    let rect = get_window_dimensions(info, &used, (1, 1)).unwrap();
    assert_eq!(rect, Rect { x: 0, y: 0, width: 1, height: 0 });
}
