use trace_timeline::event_stream::{Error, Progress};
use trace_timeline::timeline::{Message, Timeline};
use trace_timeline::grid::{
    CanvasEvent, EventChunk, EventStatus, EventType, Grid, MatchOrder, MouseButton, TaskAction,
};
use trace_timeline::si_time::to_si_time;
use trace_timeline::viewport::{Viewport, INITIAL_PAN, INITIAL_ZOOM, SCALE, ZOOM_FLOOR};

fn task(name: &str, action: TaskAction) -> EventType {
    EventType::Task { name: name.to_string(), action }
}

#[test]
fn exit_closes_oldest_open_span() {
    let mut g = Grid::new();
    g.add_event(10, task("A", TaskAction::Entered));
    g.add_event(20, task("A", TaskAction::Entered));
    g.add_event(30, task("A", TaskAction::Exited));
    assert_eq!(g.span_count(), 1);
    assert_eq!(g.span(0).start_ns, 10);
    assert_eq!(g.span(0).end_ns, Some(30));
    assert_eq!(g.open_count(), 1);
}

#[test]
fn exit_needs_an_earlier_start() {
    let mut g = Grid::new();
    g.add_event(10, task("A", TaskAction::Entered));
    g.add_event(10, task("A", TaskAction::Exited));
    assert_eq!(g.span_count(), 0);
    assert_eq!(g.open_count(), 1);
}

#[test]
fn index_holds_only_closed_spans() {
    let mut g = Grid::new();
    g.add_event(1, task("A", TaskAction::Entered));
    g.add_event(2, task("B", TaskAction::Entered));
    g.add_event(4, task("A", TaskAction::Exited));
    g.add_event(9, task("B", TaskAction::Exited));
    g.add_event(9, task("C", TaskAction::Entered));
    assert_eq!(g.span_count(), 2);
    for i in 0..g.span_count() {
        let s = g.span(i);
        let end = s.end_ns.expect("closed");
        assert!(end > s.start_ns);
    }
}

#[test]
fn unmatched_exit_is_a_no_op() {
    let mut g = Grid::new();
    g.add_event(5, task("A", TaskAction::Entered));
    g.add_event(8, task("B", TaskAction::Exited));
    assert_eq!(g.span_count(), 0);
    assert_eq!(g.open_count(), 1);
    assert_eq!(g.channel_count(), 1);
}

#[test]
fn informational_records_change_no_span() {
    let mut g = Grid::new();
    g.add_event(5, EventType::Overflow);
    g.add_event(6, EventType::Unknown("x".to_string()));
    g.add_event(7, EventType::Unmappable("a".to_string(), "b".to_string()));
    g.add_event(8, EventType::Invalid("y".to_string()));
    g.add_event(9, task("A", TaskAction::Returned));
    assert_eq!(g.span_count(), 0);
    assert_eq!(g.open_count(), 0);
    assert_eq!(g.channel_count(), 0);
}

#[test]
fn auto_fit_maps_data_onto_width() {
    let mut g = Grid::new();
    g.set_width(1000);
    g.add_event(100, task("A", TaskAction::Entered));
    g.add_event(500, task("A", TaskAction::Exited));
    assert_eq!(g.zoom(), 2_500_000_000);
    assert_eq!(g.pan(), -100 * SCALE as i128);
    assert_eq!(g.screen_x(100), Some(0));
    assert_eq!(g.screen_x(500), Some(1000));
    assert_eq!(g.screen_x(300), Some(500));
    assert!(g.take_redraw());
    assert!(!g.take_redraw());
}

#[test]
fn zoom_never_reaches_zero() {
    let mut g = Grid::new();
    for _ in 0..50 {
        g.update_zoom(-1000);
        assert!(g.zoom() >= ZOOM_FLOOR);
    }
    assert_eq!(g.zoom(), ZOOM_FLOOR);
    for _ in 0..50 {
        g.update_zoom(-99);
        assert!(g.zoom() > 0);
    }
}

#[test]
fn update_zoom_scales_by_percent() {
    let mut v = Viewport::new();
    v.update_zoom(50);
    assert_eq!(v.zoom(), INITIAL_ZOOM / 100 * 150);
    v.update_zoom(-100);
    assert_eq!(v.zoom(), ZOOM_FLOOR);
}

#[test]
fn pan_moves_by_delta_over_zoom_and_is_capped() {
    let mut v = Viewport::new();
    v.set_zoom(2 * SCALE);
    v.set_pan(0);
    v.update_pan(-10);
    assert_eq!(v.pan(), -5 * SCALE as i128);
    v.update_pan(1000);
    assert_eq!(v.pan(), INITIAL_PAN);
    v.set_pan(i128::MAX);
    assert_eq!(v.pan(), INITIAL_PAN);
    v.set_zoom(0);
    assert_eq!(v.zoom(), ZOOM_FLOOR);
}

#[test]
fn auto_fit_leaves_a_single_point_alone() {
    let mut v = Viewport::new();
    v.auto_fit(1000, 7, 7);
    assert_eq!(v.zoom(), INITIAL_ZOOM);
    assert_eq!(v.pan(), INITIAL_PAN);
}

#[test]
fn channel_index_is_stable() {
    let mut g = Grid::new();
    g.add_event(1, task("A", TaskAction::Entered));
    g.add_event(2, task("B", TaskAction::Entered));
    g.add_event(3, task("A", TaskAction::Exited));
    g.add_event(4, task("C", TaskAction::Entered));
    g.add_event(5, task("A", TaskAction::Entered));
    g.add_event(6, task("B", TaskAction::Exited));
    g.add_event(7, task("A", TaskAction::Exited));
    assert_eq!(g.channel_count(), 3);
    assert_eq!(g.channel_name(0), "A");
    assert_eq!(g.channel_name(1), "B");
    assert_eq!(g.channel_name(2), "C");
    let lanes: Vec<(String, usize)> =
        (0..g.span_count()).map(|i| (g.span(i).name.clone(), g.span(i).channel)).collect();
    assert_eq!(
        lanes,
        vec![("A".to_string(), 0), ("B".to_string(), 1), ("A".to_string(), 0)]
    );
}

#[test]
fn reset_clears_spans_and_restores_view() {
    let mut g = Grid::new();
    g.set_width(10);
    g.add_event(1, task("A", TaskAction::Entered));
    g.add_event(3, task("A", TaskAction::Exited));
    g.add_event(4, task("B", TaskAction::Entered));
    g.reset_state();
    assert_eq!(g.span_count(), 0);
    assert_eq!(g.open_count(), 0);
    assert_eq!(g.channel_count(), 0);
    assert_eq!(g.zoom(), INITIAL_ZOOM);
    assert_eq!(g.pan(), INITIAL_PAN);
}

#[test]
fn overlap_queries_find_each_span_once() {
    let mut g = Grid::new();
    g.add_event(10, task("A", TaskAction::Entered));
    g.add_event(20, task("A", TaskAction::Exited));
    g.add_event(15, task("B", TaskAction::Entered));
    g.add_event(40, task("B", TaskAction::Exited));
    g.add_event(50, task("C", TaskAction::Entered));
    g.add_event(60, task("C", TaskAction::Exited));
    let mut hits = g.spans_in(18, 45);
    hits.sort();
    assert_eq!(hits, vec![0, 1]);
    let mut at = g.spans_at(20);
    at.sort();
    assert_eq!(at, vec![1]);
    assert!(g.spans_in(60, 70).is_empty());
    assert_eq!(g.spans_at(59), vec![2]);
}

#[test]
fn chunk_applies_records_in_order() {
    let mut g = Grid::new();
    g.add_chunk(EventChunk { timestamp_ns: 3, events: vec![task("A", TaskAction::Entered)] });
    g.add_chunk(EventChunk {
        timestamp_ns: 9,
        events: vec![task("A", TaskAction::Exited), task("A", TaskAction::Entered)],
    });
    assert_eq!(g.span_count(), 1);
    assert_eq!(g.span(0).start_ns, 3);
    assert_eq!(g.span(0).end_ns, Some(9));
    assert_eq!(g.open_count(), 1);
}

#[test]
fn si_time_picks_unit_and_rounds() {
    assert_eq!(to_si_time(0), "0ns");
    assert_eq!(to_si_time(999), "999ns");
    assert_eq!(to_si_time(1000), "1us");
    assert_eq!(to_si_time(1500), "2us");
    assert_eq!(to_si_time(1499), "1us");
    assert_eq!(to_si_time(25_000_000), "25ms");
    assert_eq!(to_si_time(3_000_000_000), "3s");
    assert_eq!(to_si_time(999_999_999_999), "1000s");
}

#[test]
fn status_and_grid_flags() {
    let mut g = Grid::new();
    assert!(g.are_lines_visible());
    g.toggle_grid(false);
    assert!(!g.are_lines_visible());
    g.set_status("Initialized. Waiting for connection.");
    assert_eq!(g.status(), "Initialized. Waiting for connection.");
}

#[test]
fn screen_and_time_positions_invert() {
    let mut g = Grid::new();
    g.set_width(1000);
    g.add_event(100, task("A", TaskAction::Entered));
    g.add_event(500, task("A", TaskAction::Exited));
    assert_eq!(g.ns_at(0), Some(100));
    assert_eq!(g.ns_at(1000), Some(500));
    assert_eq!(g.ns_at(250), Some(200));
    assert_eq!(g.ns_at(-5), Some(98));
    let v = Viewport::new();
    assert_eq!(v.screen_x(0), Some(6));
    assert_eq!(v.ns_at(128), Some(9));
}

#[test]
fn timeline_dispatches_messages() {
    let mut t = Timeline::new();
    assert_eq!(t.title(), "probe-rs tracer");
    t.update(Message::Progress(Progress::Initialized));
    assert_eq!(t.grid().status(), "Initialized. Waiting for connection.");
    t.update(Message::Progress(Progress::Connected("peer".to_string())));
    assert_eq!(t.grid().status(), "Connected to peer.");
    t.update(Message::Progress(Progress::Event(EventChunk {
        timestamp_ns: 2,
        events: vec![task("A", TaskAction::Entered)],
    })));
    t.update(Message::Progress(Progress::Event(EventChunk {
        timestamp_ns: 7,
        events: vec![task("A", TaskAction::Exited)],
    })));
    assert_eq!(t.grid().span_count(), 1);
    t.update(Message::Progress(Progress::Error(Error::Serialize(
        "EOF".to_string(),
        "{".to_string(),
    ))));
    assert_eq!(t.grid().status(), "Error Serialize(EOF, {)");
    t.update(Message::Progress(Progress::Error(Error::Io("gone".to_string()))));
    assert_eq!(t.grid().status(), "Error Io(gone)");
    t.update(Message::ToggleGrid(false));
    assert!(!t.grid().are_lines_visible());
    t.update(Message::Reset);
    assert_eq!(t.grid().span_count(), 0);
    assert_eq!(t.grid().zoom(), INITIAL_ZOOM);
}

#[test]
fn right_drag_pans_and_wheel_zooms() {
    let mut g = Grid::new();
    g.on_canvas_event(CanvasEvent::WheelScrolled(-100), 800, Some((0, 0)));
    assert_eq!(g.zoom(), ZOOM_FLOOR);
    let status = g.on_canvas_event(CanvasEvent::CursorMoved, 800, Some((5, 5)));
    assert!(matches!(status, EventStatus::Ignored));
    assert!(matches!(
        g.on_canvas_event(CanvasEvent::ButtonPressed(MouseButton::Right), 800, Some((100, 5))),
        EventStatus::Captured
    ));
    let before = g.pan();
    g.take_redraw();
    assert!(matches!(
        g.on_canvas_event(CanvasEvent::CursorMoved, 800, Some((90, 5))),
        EventStatus::Captured
    ));
    // -10 px at the zoom floor (1e-8 px/ns) is -1e9 ns.
    assert_eq!(g.pan(), before - 1_000_000_000 * SCALE as i128);
    assert!(g.take_redraw());
    g.on_canvas_event(CanvasEvent::ButtonReleased, 800, None);
    let after = g.pan();
    g.on_canvas_event(CanvasEvent::CursorMoved, 800, Some((0, 5)));
    assert_eq!(g.pan(), after);
    assert!(matches!(
        g.on_canvas_event(CanvasEvent::ButtonPressed(MouseButton::Left), 800, None),
        EventStatus::Ignored
    ));
    assert!(matches!(
        g.on_canvas_event(CanvasEvent::WheelScrolled(25), 800, Some((1, 1))),
        EventStatus::Captured
    ));
    assert_eq!(g.zoom(), ZOOM_FLOOR * 125 / 100);
    assert!(matches!(g.on_canvas_event(CanvasEvent::Other, 800, Some((1, 1))), EventStatus::Ignored));
}

#[test]
fn span_under_cursor_uses_time_and_lane() {
    let mut g = Grid::new();
    g.set_width(1000);
    g.add_event(100, task("A", TaskAction::Entered));
    g.add_event(150, task("B", TaskAction::Entered));
    g.add_event(300, task("B", TaskAction::Exited));
    g.add_event(500, task("A", TaskAction::Exited));
    assert_eq!(g.zoom(), 2_500_000_000);
    assert_eq!(g.span_under(250, 30), Some(1));
    assert_eq!(g.span_under(250, 60), Some(0));
    assert_eq!(g.span_under(250, 45), None);
    assert_eq!(g.span_under(900, 60), None);
    assert_eq!(g.span_under(900, 40), Some(1));
    assert_eq!(g.span_under(-1000, 30), None);
}

#[test]
fn newest_first_matching_closes_innermost() {
    let mut g = Grid::new();
    g.set_match_order(MatchOrder::Newest);
    g.add_event(10, task("A", TaskAction::Entered));
    g.add_event(20, task("A", TaskAction::Entered));
    g.add_event(30, task("A", TaskAction::Exited));
    assert_eq!(g.span_count(), 1);
    assert_eq!(g.span(0).start_ns, 20);
    assert_eq!(g.span(0).end_ns, Some(30));
    assert_eq!(g.open_count(), 1);
}
