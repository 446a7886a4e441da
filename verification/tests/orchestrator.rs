use gof_ui::AppState;
use gof_ui::Buffer;
use gof_ui::DrawCommand;
use gof_ui::Empty;
use gof_ui::KeyCode;
use gof_ui::KeyModifiers;
use gof_ui::LineNumbers;
use gof_ui::Rect;
use gof_ui::Tabs;
use gof_ui::UiError;
use gof_ui::Window;
use gof_ui::WindowInfo;
use gof_ui::WindowKind;
use gof_ui::UI;

fn empty_pane(title: &str) -> WindowKind {
    WindowKind::Empty(Empty::new(WindowInfo::new(), String::from(title)))
}

fn buffer_pane() -> WindowKind {
    WindowKind::Buffer(Buffer::new_empty_buffer(WindowInfo::new().fill()))
}

#[test]
fn selection_skips_hidden_and_unselectable() {
    let windows = vec![empty_pane("a"), buffer_pane(), buffer_pane()];
    let mut ui = UI::new(windows, AppState::new());

    assert!(ui.select_next_window().is_ok());
    assert_eq!(ui.selected_index(), 1);

    assert!(ui.hide_window(1).is_ok());
    assert_eq!(ui.selected_index(), 2);

    let r = ui.hide_window(2);
    assert_eq!(r, Err(UiError::NoSelectableWindow));
    assert_eq!(ui.selected_index(), 2);
    assert!(!ui.is_hidden(2));
}

#[test]
fn no_windows_is_an_error() {
    let mut ui: UI<WindowKind> = UI::new(Vec::new(), AppState::new());
    assert_eq!(ui.select_next_window(), Err(UiError::NoWindows));
}

#[test]
fn hiding_the_last_candidate_fails_and_rolls_back() {
    let windows = vec![buffer_pane()];
    let mut ui = UI::new(windows, AppState::new());

    let r = ui.hide_window(0);
    assert_eq!(r, Err(UiError::AllWindowsHidden));
    assert!(!ui.is_hidden(0));
}

#[test]
fn no_selectable_window_is_an_error() {
    let windows = vec![empty_pane("only")];
    let mut ui = UI::new(windows, AppState::new());

    assert_eq!(ui.select_next_window(), Err(UiError::NoSelectableWindow));
}

#[test]
fn show_window_restores_visibility() {
    let windows = vec![buffer_pane(), buffer_pane()];
    let mut ui = UI::new(windows, AppState::new());

    assert!(ui.select_next_window().is_ok());
    assert!(ui.hide_window(1).is_ok());
    assert!(ui.is_hidden(1));

    ui.show_window(1);
    assert!(!ui.is_hidden(1));
}

#[test]
fn recalculate_assigns_solver_bounds() {
    let windows = vec![buffer_pane()];
    let mut ui = UI::new(windows, AppState::new());

    assert!(ui.recalculate_ui((80, 24)).is_ok());
    assert_eq!(ui.window_at(0).get_bounds(), Rect { x: 0, y: 0, width: 80, height: 23 });
}

#[test]
fn draw_emits_clear_first() {
    let windows = vec![buffer_pane()];
    let mut ui = UI::new(windows, AppState::new());

    let cmds = ui.draw((80, 24)).unwrap();
    assert!(cmds.len() >= 1);
    assert!(matches!(cmds[0], DrawCommand::ClearAll));
}

#[test]
fn input_goes_to_selected_buffer() {
    let windows = vec![buffer_pane()];
    let mut ui = UI::new(windows, AppState::new());

    assert!(ui.recalculate_ui((80, 24)).is_ok());
    assert!(ui.select_next_window().is_ok());
    assert!(ui.pass_input_to_selected(KeyCode::Char('l'), KeyModifiers::none()).is_ok());
    assert_eq!(ui.state().cursor_position, (1, 0));

    assert!(ui.pass_input_to_selected(KeyCode::Char('k'), KeyModifiers::none()).is_ok());
    assert_eq!(ui.state().cursor_position, (0, 0));
}

#[test]
fn state_broadcast_reaches_tab_strip() {
    let windows = vec![WindowKind::Tabs(Tabs::new(WindowInfo::new()))];
    let mut ui = UI::new(windows, AppState::new());

    let mut state = AppState::new();
    state.open_files = vec![String::from("a.rs"), String::from("b.rs"), String::from("c.rs")];
    state.selected_file = 1;
    ui.set_state(state);
    ui.update_windows_state();

    match ui.window_at(0) {
        WindowKind::Tabs(tabs) => {
            let rows = tabs.tab_rows();
            assert_eq!(rows.len(), 2);

            let selected: String = rows[0].iter_chunks().iter().map(|p| p.0.clone()).collect();
            assert_eq!(selected, " b.rs");

            let after: String = rows[1].iter_chunks().iter().map(|p| p.0.clone()).collect();
            assert_eq!(after, "c.rs //");
        },
        _ => panic!("expected the tab strip"),
    }
}

#[test]
fn gutter_rows_are_padded_labels() {
    let mut pane = LineNumbers::new(WindowInfo::new());
    pane.set_bounds(Rect { x: 0, y: 0, width: 4, height: 4 });

    let rows = pane.gutter_rows();
    assert_eq!(rows.len(), 3);

    let first: String = rows[0].iter_chunks().iter().map(|p| p.0.clone()).collect();
    assert_eq!(first, "  1\n");

    let third: String = rows[2].iter_chunks().iter().map(|p| p.0.clone()).collect();
    assert_eq!(third, "  3\n");
}

#[test]
fn cursor_moves_relative_to_selected() {
    let windows = vec![buffer_pane()];
    let mut ui = UI::new(windows, AppState::new());

    assert!(ui.recalculate_ui((80, 24)).is_ok());
    ui.move_cursor_to_window_origin();
    assert_eq!(ui.cursor_position(), (1, 1));
}

#[test]
fn visible_windows_accessor_skips_hidden() {
    let windows = vec![buffer_pane(), buffer_pane(), buffer_pane()];
    let mut ui = UI::new(windows, AppState::new());

    assert!(ui.select_next_window().is_ok());
    assert!(ui.hide_window(1).is_ok());

    let visible = ui.windows();
    assert_eq!(visible.len(), 2);
}

#[test]
fn frame_decomposes_into_clear_rows_border_titles() {
    let pane = WindowKind::Empty(Empty::new(WindowInfo::new().fill(), String::from("t")));
    let mut ui = UI::new(vec![pane], AppState::new());

    let cmds = ui.draw((80, 24)).unwrap();

    // one clear, no content rows (the placeholder pane has none), two
    // commands per border point of (0,0,80,23), and one title pair
    let border_points = 2 * 80 + 2 * (23 + 1);
    assert_eq!(cmds.len(), 1 + 2 * border_points + 2);
    assert!(matches!(cmds[0], DrawCommand::ClearAll));
    assert!(matches!(cmds[1], DrawCommand::MoveTo(0, 0)));
    assert!(matches!(cmds[2], DrawCommand::Print { .. }));
    assert!(matches!(cmds[cmds.len() - 2], DrawCommand::MoveTo(1, 0)));
    match &cmds[cmds.len() - 1] {
        DrawCommand::Print { text, .. } => assert_eq!(text, "t"),
        _ => panic!("expected the title print"),
    }
}
