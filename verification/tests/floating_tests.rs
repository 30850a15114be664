use mstsc_mgr::domain::{AppSettings, MstscWindow};
use mstsc_mgr::floating::{
    floating_list_labels, floating_list_rows, floating_rows, FloatingRows, floating_menu_action, initial_list_visibility,
    order_changed, sort_windows, title_le, window_order, BallState, FloatingMenuAction,
};
use mstsc_mgr::floating_position::{
    position_changed, retry_step, startup_position, RetryStep, startup_visibility, DragWatch, Position,
    StartupGeometry, VisibilityPlan,
};

fn window(hwnd: isize, pid: u32, title: &str) -> MstscWindow {
    MstscWindow { hwnd, pid, title: title.to_string() }
}

#[test]
fn list_rows_are_clamped() {
    assert_eq!(floating_list_rows(0), 1);
    assert_eq!(floating_list_rows(4), 4);
    assert_eq!(floating_list_rows(30), 9);
}

#[test]
fn labels_number_the_first_nine() {
    let windows: Vec<MstscWindow> = (0..12).map(|i| window(i, 1, &format!("s{i}"))).collect();
    let labels = floating_list_labels(&windows);
    assert_eq!(labels.len(), 9);
    assert_eq!(labels[0], "1  s0");
    assert_eq!(labels[8], "9  s8");
}

#[test]
fn list_opens_with_tabs_always_shown() {
    let mut s = AppSettings::default();
    assert!(!initial_list_visibility(Some(&s)));
    s.always_show_tabs = true;
    assert!(initial_list_visibility(Some(&s)));
    s.floating_controller = false;
    assert!(!initial_list_visibility(Some(&s)));
    assert!(!initial_list_visibility(None));
}

#[test]
fn menu_commands() {
    assert_eq!(floating_menu_action(2001), Some(FloatingMenuAction::ShowMainWindow));
    assert_eq!(floating_menu_action(2002), Some(FloatingMenuAction::CloseController));
    assert_eq!(floating_menu_action(2003 + 65536), Some(FloatingMenuAction::Exit));
    assert_eq!(floating_menu_action(0), None);
}

#[test]
fn pointer_grace_period() {
    let mut b = BallState::new(0);
    assert_eq!(b.poll(100, true, true, false), Some(true));
    b.list_visibility_applied(true);
    assert_eq!(b.poll(400, false, true, false), None);
    assert_eq!(b.poll(700, false, true, false), Some(false));
    b.list_visibility_applied(false);
    assert_eq!(b.poll(800, false, true, true), Some(true));
    assert_eq!(b.poll(900, true, false, true), None);
}

#[test]
fn windows_are_sorted_by_pid_handle_title() {
    let sorted = sort_windows(vec![
        window(5, 2, "b"),
        window(9, 1, "z"),
        window(5, 2, "a"),
        window(-1, 1, "x"),
        window(3, 1, "y"),
    ]);
    let keys: Vec<(u32, isize, &str)> = sorted.iter().map(|w| (w.pid, w.hwnd, w.title.as_str())).collect();
    assert_eq!(keys, vec![(1, 3, "y"), (1, 9, "z"), (1, -1, "x"), (2, 5, "a"), (2, 5, "b")]);
    assert!(title_le("ab", "abc"));
    assert!(!title_le("b", "abc"));
    assert!(title_le("", ""));
    let order = window_order(&sorted);
    assert_eq!(order.len(), 5);
    assert_eq!((order[2].pid, order[2].hwnd), (1, usize::MAX));
    assert!(!order_changed(&order, &order.clone()));
    assert!(order_changed(&order, &order[..4]));
}

fn geometry() -> StartupGeometry {
    StartupGeometry {
        rect_left: 0,
        rect_top: 0,
        rect_right: 64,
        rect_bottom: 64,
        virtual_left: 0,
        virtual_top: 0,
        virtual_width: 1920,
        virtual_height: 1080,
        primary_width: 1920,
        primary_height: 1080,
    }
}

#[test]
fn startup_position_default_and_restored() {
    let g = geometry();
    let p = startup_position(&g, None, None);
    assert_eq!((p.x, p.y, p.restored), (1920 - 64 - 24, 324 - 32, false));
    let p = startup_position(&g, Some(100), Some(200));
    assert_eq!((p.x, p.y, p.restored), (100, 200, true));
    let p = startup_position(&g, Some(1900), Some(200));
    assert!(!p.restored);
    let p = startup_position(&g, Some(100), None);
    assert!(!p.restored);
    let mut tiny = g;
    tiny.virtual_width = 10;
    let p = startup_position(&tiny, None, None);
    assert_eq!(p.x, 0);
}

#[test]
fn drag_is_persisted_on_release() {
    let start = Position { x: 10, y: 10 };
    let moved = Position { x: 50, y: 60 };
    let mut w = DragWatch::new(Some(start));
    assert_eq!(w.step(true, Some(start)), None);
    assert_eq!(w.step(true, Some(moved)), None);
    assert_eq!(w.step(false, Some(moved)), Some(moved));
    assert_eq!(w.step(false, Some(moved)), None);
    assert_eq!(w.step(true, Some(moved)), None);
    assert_eq!(w.step(false, Some(moved)), None);
    assert!(!position_changed(Some(50), Some(60), 50, 60));
    assert!(position_changed(None, Some(60), 50, 60));
}

#[test]
fn visibility_after_startup() {
    assert_eq!(startup_visibility(true, true, true), VisibilityPlan { controller: Some(true), list: Some(true) });
    assert_eq!(startup_visibility(true, false, true), VisibilityPlan { controller: Some(false), list: Some(false) });
    assert_eq!(startup_visibility(false, true, true), VisibilityPlan { controller: Some(true), list: None });
    assert_eq!(startup_visibility(false, false, true), VisibilityPlan { controller: None, list: None });
}

#[test]
fn empty_list_shows_a_note() {
    match floating_rows(&[]) {
        FloatingRows::Placeholder(t) => assert_eq!(t, "No MSTSC windows"),
        FloatingRows::Sessions(_) => panic!("expected the note"),
    }
    match floating_rows(&[window(1, 2, "srv")]) {
        FloatingRows::Sessions(labels) => assert_eq!(labels, vec!["1  srv".to_string()]),
        FloatingRows::Placeholder(_) => panic!("expected sessions"),
    }
}

#[test]
fn startup_placement_retries_up_to_twenty_times() {
    assert_eq!(retry_step(1, true), RetryStep::Positioned);
    assert_eq!(retry_step(1, false), RetryStep::RetryAfterDelay);
    assert_eq!(retry_step(19, false), RetryStep::RetryAfterDelay);
    assert_eq!(retry_step(20, false), RetryStep::GiveUp);
    assert_eq!(retry_step(20, true), RetryStep::Positioned);
    let mut attempts = 0;
    let mut attempt = 1;
    let positioned = loop {
        attempts += 1;
        match retry_step(attempt, attempt == 7) {
            RetryStep::Positioned => break true,
            RetryStep::GiveUp => break false,
            RetryStep::RetryAfterDelay => attempt += 1,
        }
    };
    assert!(positioned);
    assert_eq!(attempts, 7);
}

#[test]
fn drag_run_stores_only_after_a_moved_release() {
    let a = Position { x: 1, y: 1 };
    let b = Position { x: 5, y: 1 };
    let mut w = DragWatch::new(Some(a));
    assert_eq!(w.step(true, Some(a)), None);
    assert_eq!(w.step(false, Some(a)), None);
    assert_eq!(w.step(true, Some(a)), None);
    assert_eq!(w.step(true, Some(b)), None);
    assert_eq!(w.step(true, None), None);
    assert_eq!(w.step(false, Some(b)), Some(b));
    assert_eq!(w.step(false, Some(b)), None);
}
