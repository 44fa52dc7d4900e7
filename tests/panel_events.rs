use taskpanel::cache::build_entry;
use taskpanel::layout::{layout, Candidate};
use taskpanel::panel::{
    cell_background, is_task_window_type, strip_geometry, tray_slot_x, wait_timeout_ms, Action,
    ClickRegion, PanelEvent, PanelState, Step, ACTIVE_BG_COLOR, BG_COLOR, HOVER_BG_COLOR,
};

fn panel_with_cells() -> PanelState {
    let mut p = PanelState::new(1000);
    let cs = vec![
        Candidate { handle: 7, text_width: 52 },
        Candidate { handle: 8, text_width: 52 },
    ];
    p.set_regions(&layout(&cs, 0, None, 500));
    p
}

fn step(dirty: bool, action: Action) -> Step {
    Step { dirty, action }
}

#[test]
fn regions_follow_layout() {
    let p = panel_with_cells();
    assert_eq!(
        p.regions,
        vec![
            ClickRegion { x_start: 0, x_end: 100, handle: 7 },
            ClickRegion { x_start: 100, x_end: 200, handle: 8 },
        ]
    );
    assert_eq!(p.hovered_at(100), Some(7));
    assert_eq!(p.hovered_at(101), Some(8));
    assert_eq!(p.hovered_at(201), None);
}

#[test]
fn pointer_leave_clears_hover_once() {
    let mut p = panel_with_cells();
    assert_eq!(p.handle_event(PanelEvent::Motion { x: 50 }), step(true, Action::Nothing));
    assert_eq!(p.hovered, Some(7));
    assert_eq!(p.handle_event(PanelEvent::PointerLeft), step(true, Action::Nothing));
    assert_eq!(p.hovered, None);
    assert_eq!(p.pointer_x, None);
    assert_eq!(p.handle_event(PanelEvent::PointerLeft), step(false, Action::Nothing));
}

#[test]
fn motion_within_one_region_repaints_once() {
    let mut p = panel_with_cells();
    assert!(p.handle_event(PanelEvent::Motion { x: 10 }).dirty);
    assert!(!p.handle_event(PanelEvent::Motion { x: 20 }).dirty);
    assert!(!p.handle_event(PanelEvent::Motion { x: 20 }).dirty);
    assert!(p.handle_event(PanelEvent::Motion { x: 150 }).dirty);
    assert_eq!(p.hovered, Some(8));
    assert!(p.handle_event(PanelEvent::Motion { x: 300 }).dirty);
    assert_eq!(p.hovered, None);
    assert!(!p.handle_event(PanelEvent::Motion { x: 400 }).dirty);
    assert_eq!(p.pointer_x, Some(400));
}

#[test]
fn clicks_activate_or_close() {
    let mut p = panel_with_cells();
    let ev = |button| PanelEvent::ButtonPress { x: 150, button };
    assert_eq!(p.handle_event(ev(1)), step(true, Action::Activate(8)));
    assert_eq!(p.handle_event(ev(3)), step(true, Action::Close(8)));
    assert_eq!(p.handle_event(ev(2)), step(true, Action::Nothing));
    assert_eq!(
        p.handle_event(PanelEvent::ButtonPress { x: 900, button: 1 }),
        step(true, Action::Nothing)
    );
}

#[test]
fn docking_adds_each_icon_once() {
    let mut p = PanelState::new(1000);
    assert_eq!(p.handle_event(PanelEvent::DockRequest { window: 5 }), step(true, Action::Embed(5)));
    assert_eq!(p.handle_event(PanelEvent::DockRequest { window: 6 }), step(true, Action::Embed(6)));
    assert_eq!(p.handle_event(PanelEvent::DockRequest { window: 5 }), step(true, Action::Nothing));
    assert_eq!(p.tray, vec![5, 6]);
}

#[test]
fn destroy_removes_from_tray_and_cache() {
    let mut p = PanelState::new(1000);
    p.handle_event(PanelEvent::DockRequest { window: 5 });
    p.handle_event(PanelEvent::DockRequest { window: 6 });
    p.cache.insert(9, build_entry(&Some(b"x".to_vec()), &None, &None));
    assert_eq!(p.handle_event(PanelEvent::Destroyed { window: 5 }), step(true, Action::Nothing));
    assert_eq!(p.tray, vec![6]);
    assert_eq!(p.handle_event(PanelEvent::Destroyed { window: 9 }), step(true, Action::Nothing));
    assert!(!p.cache.contains(9));
    assert_eq!(p.handle_event(PanelEvent::Destroyed { window: 9 }), step(false, Action::Nothing));
}

#[test]
fn metadata_change_evicts_entry() {
    let mut p = PanelState::new(1000);
    p.cache.insert(1, build_entry(&Some(b"a".to_vec()), &None, &None));
    p.cache.insert(2, build_entry(&Some(b"b".to_vec()), &None, &None));
    assert_eq!(p.handle_event(PanelEvent::MetadataChanged { window: 1 }), step(true, Action::Nothing));
    assert!(!p.cache.contains(1));
    assert!(p.cache.contains(2));
    assert_eq!(p.handle_event(PanelEvent::Exposed), step(true, Action::Nothing));
    assert_eq!(p.handle_event(PanelEvent::ClientsChanged), step(true, Action::Nothing));
}

#[test]
fn task_windows_are_filtered_in_order() {
    let mut p = PanelState::new(1000);
    p.handle_event(PanelEvent::DockRequest { window: 4 });
    for (w, t) in [(1u32, "Editor"), (2, "conky"), (3, "Terminal"), (4, "tray"), (6, "Self")] {
        p.cache.insert(w, build_entry(&Some(t.as_bytes().to_vec()), &None, &None));
    }
    let listed = vec![3, 2, 5, 4, 1, 6];
    assert_eq!(p.task_windows(&listed, 6), vec![3, 1]);
}

#[test]
fn window_types_exclude_docks() {
    assert!(is_task_window_type(&vec![10, 11], 1, 2, 3));
    assert!(!is_task_window_type(&vec![10, 2], 1, 2, 3));
    assert!(is_task_window_type(&Vec::new(), 1, 2, 3));
}

#[test]
fn clock_change_forces_repaint() {
    let mut p = PanelState::new(1000);
    assert!(p.clock_tick("12:00".to_string()));
    assert!(!p.clock_tick("12:00".to_string()));
    assert!(p.clock_tick("12:01".to_string()));
    assert_eq!(p.last_clock, "12:01");
}

#[test]
fn wait_reaches_next_minute() {
    assert_eq!(wait_timeout_ms(0), 60010);
    assert_eq!(wait_timeout_ms(59_999), 11);
    assert_eq!(wait_timeout_ms(120_500), 59_510);
}

#[test]
fn strip_places_clock_tray_and_windows() {
    let s = strip_geometry(1920, 40, 2);
    assert_eq!(s.clock_x, 1872);
    assert_eq!(s.tray_x, 1872 - 79);
    assert_eq!(s.window_area, 1783);
    assert_eq!(tray_slot_x(&s, 1), 1825);
    let tiny = strip_geometry(50, 40, 3);
    assert_eq!(tiny.window_area, 0);
    assert!(tiny.tray_x < 0);
}

#[test]
fn backgrounds_by_state() {
    let cells = layout(&vec![Candidate { handle: 1, text_width: 5 }], 1, Some(1), 100);
    assert_eq!(cell_background(&cells[0]), ACTIVE_BG_COLOR);
    let cells = layout(&vec![Candidate { handle: 1, text_width: 5 }], 2, Some(1), 100);
    assert_eq!(cell_background(&cells[0]), HOVER_BG_COLOR);
    let cells = layout(&vec![Candidate { handle: 1, text_width: 5 }], 2, None, 100);
    assert_eq!(cell_background(&cells[0]), BG_COLOR);
}
