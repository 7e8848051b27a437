use mux_client_tab::line::Line;
use mux_client_tab::mouse::{MouseButton, MouseEvent, MouseEventKind, MouseQueue};
use mux_client_tab::poll::{PollFailure, PollScheduler, MAX_POLL_INTERVAL_MS};
use mux_client_tab::render::{CursorPosition, RenderDelta, RenderableDimensions};
use mux_client_tab::tab::{ClientTab, Pdu, TermSize, Unilateral};

fn ev(kind: MouseEventKind, button: MouseButton, x: usize, modifiers: u16) -> MouseEvent {
    MouseEvent { kind, button, x, y: 0, modifiers }
}

#[test]
fn moves_collapse_to_last_position() {
    let mut q = MouseQueue::new();
    for x in 0..5 {
        q.append(ev(MouseEventKind::Move, MouseButton::NoButton, x, 0));
    }
    assert_eq!(q.len(), 1);
    assert!(q.get(0) == ev(MouseEventKind::Move, MouseButton::NoButton, 4, 0));
}

#[test]
fn wheel_scrolls_sum() {
    let mut q = MouseQueue::new();
    q.append(ev(MouseEventKind::Press, MouseButton::WheelUp(1), 0, 0));
    q.append(ev(MouseEventKind::Press, MouseButton::WheelUp(2), 0, 0));
    assert_eq!(q.len(), 1);
    assert!(q.get(0).button == MouseButton::WheelUp(3));
}

#[test]
fn wheel_sum_saturates() {
    let mut q = MouseQueue::new();
    q.append(ev(MouseEventKind::Press, MouseButton::WheelDown(usize::MAX), 0, 0));
    q.append(ev(MouseEventKind::Press, MouseButton::WheelDown(5), 0, 0));
    assert!(q.get(0).button == MouseButton::WheelDown(usize::MAX));
}

#[test]
fn different_modifiers_or_buttons_are_queued() {
    let mut q = MouseQueue::new();
    q.append(ev(MouseEventKind::Move, MouseButton::NoButton, 1, 0));
    q.append(ev(MouseEventKind::Move, MouseButton::NoButton, 2, 1));
    q.append(ev(MouseEventKind::Move, MouseButton::Left, 3, 1));
    q.append(ev(MouseEventKind::Press, MouseButton::WheelUp(1), 0, 1));
    q.append(ev(MouseEventKind::Press, MouseButton::WheelDown(1), 0, 1));
    assert_eq!(q.len(), 5);
}

#[test]
fn one_event_in_flight_at_a_time() {
    let mut q = MouseQueue::new();
    assert!(q.next().is_none());
    q.append(ev(MouseEventKind::Press, MouseButton::Left, 1, 0));
    q.append(ev(MouseEventKind::Release, MouseButton::Left, 1, 0));
    let first = q.next().unwrap();
    assert!(first.kind == MouseEventKind::Press);
    assert!(q.is_sending());
    assert!(q.next().is_none());
    assert!(q.pop().is_none());
    q.send_finished();
    let second = q.next().unwrap();
    assert!(second.kind == MouseEventKind::Release);
    q.send_finished();
    assert!(q.next().is_none());
    assert!(!q.is_sending());
}

#[test]
fn poll_interval_reaches_ceiling() {
    let mut p = PollScheduler::new(0);
    for _ in 0..20 {
        assert!(!p.should_poll(0));
    }
    assert_eq!(p.interval_ms(), MAX_POLL_INTERVAL_MS);
    assert!(p.should_poll(30_000));
    assert!(p.is_polling());
    p.poll_finished(Err(PollFailure::Retryable));
    assert!(!p.is_dead());
    p.reset_interval();
    assert_eq!(p.interval_ms(), 20);
}

#[test]
fn fatal_poll_failure_kills_for_good() {
    let mut p = PollScheduler::new(0);
    assert!(p.should_poll(1_000));
    p.poll_finished(Err(PollFailure::Fatal));
    assert!(p.is_dead());
    assert!(!p.should_poll(1_000_000));
    p.poll_finished(Ok(()));
    assert!(p.is_dead());
}

#[test]
fn dead_scheduler_still_backs_off() {
    let mut p = PollScheduler::new(0);
    assert!(p.should_poll(1_000));
    p.poll_finished(Err(PollFailure::Fatal));
    assert_eq!(p.interval_ms(), 40);
    assert!(!p.should_poll(2_000));
    assert_eq!(p.interval_ms(), 80);
    assert!(!p.should_poll(3_000));
    assert_eq!(p.interval_ms(), 160);
    assert!(!p.is_polling());
}

#[test]
fn poll_with_clock_behind_last_poll_waits() {
    let mut p = PollScheduler::new(500);
    assert!(!p.should_poll(100));
}

fn size(cols: u16, rows: u16) -> TermSize {
    TermSize { rows, cols, pixel_width: 0, pixel_height: 0 }
}

fn diff(grabbed: bool) -> RenderDelta {
    RenderDelta {
        dirty_lines: vec![(0, 1)],
        bonus_lines: vec![(1, Line::from_cells(vec!['a']))],
        cursor_position: CursorPosition { x: 0, y: 0 },
        dimensions: RenderableDimensions {
            cols: 80,
            viewport_rows: 24,
            scrollback_rows: 24,
            physical_top: 0,
            scrollback_top: 0,
        },
        title: "remote title".to_string(),
        working_dir: None,
        mouse_grabbed: grabbed,
    }
}

#[test]
fn tab_keeps_its_identifiers() {
    let tab = ClientTab::new(3, 17, size(80, 24), "title", 0);
    assert_eq!(tab.tab_id(), 3);
    assert_eq!(tab.remote_tab_id(), 17);
    assert_eq!(tab.get_title(), "title");
    assert!(!tab.is_dead());
    assert!(!tab.is_mouse_grabbed());
    assert_eq!(tab.get_current_working_dir(), None);
    assert_eq!(tab.renderer().get_dimensions().cols, 80);
}

#[test]
fn unilateral_diff_is_applied() {
    let mut tab = ClientTab::new(1, 2, size(80, 24), "t", 0);
    match tab.process_unilateral(Pdu::RenderChanges(diff(true))) {
        Ok(Unilateral::Applied(out)) => {
            assert!(out.redraw);
            assert_eq!(out.fetch.rows, vec![0]);
        }
        _ => panic!("diff not applied"),
    }
    assert!(tab.is_mouse_grabbed());
    assert_eq!(tab.get_title(), "remote title");
}

#[test]
fn clipboard_forwarded_only_when_registered() {
    let mut tab = ClientTab::new(1, 2, size(80, 24), "t", 0);
    match tab.process_unilateral(Pdu::SetClipboard(Some("hi".to_string()))) {
        Ok(Unilateral::ClipboardIgnored(Some(s))) => assert_eq!(s, "hi"),
        _ => panic!("clipboard should be dropped"),
    }
    tab.set_clipboard();
    match tab.process_unilateral(Pdu::SetClipboard(Some("hi".to_string()))) {
        Ok(Unilateral::SetClipboard(Some(s))) => assert_eq!(s, "hi"),
        _ => panic!("clipboard should be forwarded"),
    }
}

#[test]
fn other_unilateral_is_an_error() {
    let mut tab = ClientTab::new(1, 2, size(80, 24), "t", 0);
    match tab.process_unilateral(Pdu::Other("Pong".to_string())) {
        Err(e) => assert_eq!(e.name, "Pong"),
        Ok(_) => panic!("expected an error"),
    }
}

#[test]
fn tab_resize_only_on_change() {
    let mut tab = ClientTab::new(1, 2, size(80, 24), "t", 0);
    assert!(!tab.resize(size(80, 24)));
    assert!(tab.resize(size(100, 30)));
    assert_eq!(tab.renderer().get_dimensions().viewport_rows, 30);
}

#[test]
fn tab_mouse_events_drain_in_order() {
    let mut tab = ClientTab::new(1, 2, size(80, 24), "t", 0);
    let a = ev(MouseEventKind::Press, MouseButton::Left, 1, 0);
    let b = ev(MouseEventKind::Release, MouseButton::Left, 1, 0);
    assert!(tab.mouse_event(a) == Some(a));
    assert!(tab.mouse_event(b).is_none());
    assert!(tab.mouse_event_done() == Some(b));
    assert!(tab.mouse_event_done().is_none());
}

#[test]
fn tab_renderer_reads_rows() {
    let mut tab = ClientTab::new(1, 2, size(3, 24), "t", 0);
    let (lines, batch) = tab.renderer_mut().get_lines(0, 1);
    assert_eq!(lines[0].cells, vec![' ', ' ', ' ']);
    assert_eq!(batch.rows, vec![0]);
}

#[test]
fn line_helpers() {
    let a = Line::from_cells(vec!['x', 'y']);
    let b = a.duplicate();
    assert!(a.same_content(&b));
    assert!(!a.same_content(&Line::with_width(2)));
    assert_eq!(Line::with_width(0).cells.len(), 0);
}
