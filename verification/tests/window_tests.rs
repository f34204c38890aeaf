use daily_plan::snap_line::{exact_region, SnapLineManager};
use daily_plan::window::{
    calculate_snap_x, calculate_snap_y, center_in_work_area, get_all_monitor_edges,
    snap_line_geometry, CollapseStep, DragStart, EdgeType, LineEdge, ScreenEdge, SnapInput,
    SnapOutcome, WatchInput, WindowManager, WorkArea,
};

fn two_monitors() -> Vec<ScreenEdge> {
    get_all_monitor_edges(&vec![
        WorkArea { x: 0, y: 0, width: 1920, height: 1040 },
        WorkArea { x: 1920, y: 0, width: 1280, height: 984 },
    ])
}

#[test]
fn edges_of_two_monitors() {
    let e = two_monitors();
    assert_eq!(e.len(), 4);
    assert_eq!((e[0].edge_type, e[0].position, e[0].is_shared), (EdgeType::Left, 0, false));
    assert_eq!((e[1].edge_type, e[1].position, e[1].is_shared), (EdgeType::Right, 1920, true));
    assert_eq!((e[2].edge_type, e[2].position, e[2].is_shared), (EdgeType::Left, 1920, true));
    assert_eq!((e[3].edge_type, e[3].position, e[3].is_shared), (EdgeType::Right, 3200, false));
    assert!(get_all_monitor_edges(&vec![]).is_empty());
}

#[test]
fn snap_to_plain_edges() {
    let e = two_monitors();
    assert_eq!(calculate_snap_x(&e, 30, 300, 40), (0, Some(EdgeType::Left)));
    assert_eq!(calculate_snap_x(&e, -25, 300, 40), (0, Some(EdgeType::Left)));
    assert_eq!(calculate_snap_x(&e, 2880, 300, 40), (2900, Some(EdgeType::Right)));
    assert_eq!(calculate_snap_x(&e, 500, 300, 40), (500, None));
}

#[test]
fn snap_to_shared_edge_by_side() {
    let e = two_monitors();
    // Mostly on the left monitor: its right side goes to the shared edge.
    assert_eq!(calculate_snap_x(&e, 1600, 300, 40), (1620, Some(EdgeType::Right)));
    // Mostly on the right monitor: its left side goes to the shared edge.
    assert_eq!(calculate_snap_x(&e, 1900, 300, 40), (1920, Some(EdgeType::Left)));
}

#[test]
fn snap_top() {
    assert_eq!(calculate_snap_y(Some(0), 25, 40), 0);
    assert_eq!(calculate_snap_y(Some(0), -30, 40), 0);
    assert_eq!(calculate_snap_y(Some(0), 41, 40), 41);
    assert_eq!(calculate_snap_y(None, 5, 40), 5);
    let once = calculate_snap_y(Some(10), 30, 40);
    assert_eq!(calculate_snap_y(Some(10), once, 40), once);
}

fn input(inner_x: i32, inner_y: i32) -> SnapInput {
    SnapInput {
        outer_x: inner_x - 8,
        outer_y: inner_y - 1,
        inner_x,
        inner_y,
        inner_width: 300,
        monitor_top: Some(0),
    }
}

#[test]
fn perform_snap_moves_and_records_edge() {
    let e = two_monitors();
    let mut w = WindowManager::new();
    assert_eq!(w.drag_threshold, 40);
    let r = w.perform_snap(input(30, 200), &e);
    assert_eq!(r, SnapOutcome { move_to: Some((-8, 199)), line_edge: Some(LineEdge::Left) });
    assert_eq!(w.snap_line_edge, Some(LineEdge::Left));
    let top = w.perform_snap(input(700, 20), &e);
    assert_eq!(top, SnapOutcome { move_to: Some((692, -1)), line_edge: Some(LineEdge::Top) });
    let none = w.perform_snap(input(700, 300), &e);
    assert_eq!(none, SnapOutcome { move_to: None, line_edge: None });
    assert_eq!(w.snap_line_edge, None);
}

#[test]
fn reset_skips_the_next_snap() {
    let e = two_monitors();
    let mut w = WindowManager::new();
    w.perform_snap(input(30, 200), &e);
    w.reset_snap_state();
    assert_eq!(w.snap_line_edge, None);
    assert!(w.skip_next_snap);
    let r = w.perform_snap(input(30, 200), &e);
    assert_eq!(r, SnapOutcome { move_to: None, line_edge: None });
    assert!(!w.skip_next_snap);
    let r2 = w.perform_snap(input(30, 200), &e);
    assert_eq!(r2.line_edge, Some(LineEdge::Left));
}

#[test]
fn collapse_and_expand() {
    let e = two_monitors();
    let mut w = WindowManager::new();
    assert_eq!(w.collapse_window(Some((5, 5)), true, true), CollapseStep::Nothing);
    w.perform_snap(input(30, 200), &e);
    assert_eq!(w.collapse_window(Some((-8, 199)), true, true), CollapseStep::Collapse);
    assert!(w.is_collapsed);
    assert_eq!(w.collapse_window(Some((1, 1)), true, true), CollapseStep::Nothing);
    let no_snap = w.perform_snap(input(500, 500), &e);
    assert_eq!(no_snap, SnapOutcome { move_to: None, line_edge: None });
    assert_eq!(w.expand_window(true), CollapseStep::Expand(Some((-8, 199))));
    assert!(!w.is_collapsed);
    assert!(w.mouse_was_in_window);
    assert_eq!(w.snap_line_edge, Some(LineEdge::Left));
    assert_eq!(w.expand_window(true), CollapseStep::Nothing);
}

#[test]
fn locked_or_busy_windows_do_not_collapse() {
    let e = two_monitors();
    let mut w = WindowManager::new();
    w.perform_snap(input(30, 200), &e);
    assert!(w.toggle_lock());
    assert_eq!(w.collapse_window(None, true, true), CollapseStep::Nothing);
    assert!(!w.toggle_lock());
    assert!(w.set_resizing(true));
    assert_eq!(w.collapse_window(None, true, true), CollapseStep::Nothing);
    assert!(!w.set_resizing(false));
    assert_eq!(w.collapse_window(None, false, true), CollapseStep::Nothing);
    assert_eq!(w.collapse_window(None, true, false), CollapseStep::Nothing);
    assert!(!w.is_collapsed);
}

#[test]
fn dragging_a_collapsed_window_brings_it_back() {
    let e = two_monitors();
    let mut w = WindowManager::new();
    w.perform_snap(input(30, 200), &e);
    w.collapse_window(Some((-8, 199)), true, true);
    let d = w.start_dragging();
    assert_eq!(d, DragStart { hide_snap_line: true, restore_position: Some((-8, 199)) });
    assert!(w.is_dragging && !w.is_collapsed);
    assert!(w.accepts_move());
    assert!(w.accepts_resize());
    w.stop_dragging();
    assert!(!w.is_dragging && w.mouse_was_in_window);
    let d2 = w.start_dragging();
    assert_eq!(d2, DragStart { hide_snap_line: false, restore_position: None });
}

fn watch_input(cursor: (i32, i32)) -> WatchInput {
    WatchInput {
        is_minimized: false,
        other_window_visible: false,
        cursor: Some(cursor),
        window_rect: Some((0, 100, 300, 500)),
        focus_lost_recently: false,
        snap_window_present: true,
        windows_present: true,
    }
}

#[test]
fn watcher_collapses_after_the_mouse_leaves() {
    let e = two_monitors();
    let mut w = WindowManager::new();
    w.perform_snap(input(30, 200), &e);
    assert_eq!(w.watch(watch_input((900, 900))), CollapseStep::Nothing);
    assert_eq!(w.watch(watch_input((100, 300))), CollapseStep::Nothing);
    assert!(w.mouse_was_in_window);
    let mut lost = watch_input((900, 900));
    lost.focus_lost_recently = true;
    assert_eq!(w.watch(lost), CollapseStep::Nothing);
    assert_eq!(w.watch(watch_input((900, 900))), CollapseStep::Collapse);
    assert!(w.is_collapsed);
    assert_eq!(w.collapsed_position, Some((0, 100)));
    assert_eq!(w.watch(watch_input((100, 300))), CollapseStep::Nothing);
}

#[test]
fn focus_and_consistency() {
    let e = two_monitors();
    let mut w = WindowManager::new();
    assert_eq!(w.handle_window_focused(true, (0, 0), true, true), CollapseStep::Expand(None));
    w.perform_snap(input(30, 200), &e);
    assert_eq!(w.handle_window_focused(false, (-3000, -3000), true, true), CollapseStep::Collapse);
    assert_eq!(w.handle_window_focused(false, (0, 0), true, true), CollapseStep::Collapse);
    assert_eq!(w.check_collapse_consistency(true, true, true), CollapseStep::Nothing);
    assert_eq!(w.check_collapse_consistency(false, true, true), CollapseStep::Collapse);
    w.expand_window(true);
    assert_eq!(w.check_collapse_consistency(true, false, true), CollapseStep::Expand(Some((-3000, -3000))));
    assert_eq!(w.check_collapse_consistency(false, false, true), CollapseStep::Nothing);
}

#[test]
fn line_geometry() {
    let top = snap_line_geometry(LineEdge::Top, 100, 0, 300, 600, 4, 6, 8, 1);
    assert_eq!((top.window_width, top.window_height, top.outer_x, top.outer_y), (300, 10, 92, -1));
    assert_eq!((top.visible_x, top.visible_y, top.visible_width, top.visible_height), (0, 0, 300, 4));
    let right = snap_line_geometry(LineEdge::Right, 1620, 200, 300, 600, 4, 6, 8, 1);
    assert_eq!((right.window_width, right.window_height, right.outer_x), (10, 600, 1902));
    assert_eq!((right.visible_x, right.visible_width, right.visible_height), (6, 4, 600));
    let left = snap_line_geometry(LineEdge::Left, 0, 200, 300, 600, 4, 6, 8, 1);
    assert_eq!((left.outer_x, left.outer_y, left.visible_x, left.visible_width), (-8, 199, 0, 4));
}

#[test]
fn centring() {
    let a = WorkArea { x: 0, y: 0, width: 1920, height: 1040 };
    assert_eq!(center_in_work_area(a, 300, 600), (810, 220));
    assert_eq!(center_in_work_area(a, 1921, 1041), (0, 0));
    assert_eq!(center_in_work_area(a, 1923, 1040), (-1, 0));
    let b = WorkArea { x: 1920, y: -10, width: 1280, height: 984 };
    assert_eq!(center_in_work_area(b, 301, 600), (2409, 182));
}

#[test]
fn region_of_the_visible_part() {
    assert_eq!(exact_region(100, 50, 108, 51, 6, 0, 4, 600), (14, 1, 18, 601));
    let _m = SnapLineManager::new();
}

#[test]
fn watcher_reaches_the_mouse_only_when_active() {
    let e = two_monitors();
    let mut w = WindowManager::new();
    assert!(!w.watch_reaches_mouse(&watch_input((1, 1))));
    w.perform_snap(input(30, 200), &e);
    assert!(w.watch_reaches_mouse(&watch_input((1, 1))));
    let mut no_cursor = watch_input((1, 1));
    no_cursor.cursor = None;
    assert!(!w.watch_reaches_mouse(&no_cursor));
    w.is_main_menu_open = true;
    assert!(!w.watch_reaches_mouse(&watch_input((1, 1))));
    w.is_main_menu_open = false;
    w.is_sub_window_open = true;
    assert!(!w.watch_reaches_mouse(&watch_input((1, 1))));
}

#[test]
fn menu_and_sub_window_flags() {
    let mut w = WindowManager::new();
    w.set_main_menu_open(true);
    assert!(w.is_main_menu_open());
    w.set_main_menu_open(false);
    assert!(!w.is_main_menu_open());
    w.set_sub_window_open(true);
    assert!(w.is_sub_window_open);
    w.set_always_on_top(false);
    assert!(!w.always_on_top);
    w.set_locked(true);
    assert!(w.is_locked && !w.accepts_move());
}
