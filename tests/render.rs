use mux_client_tab::line::Line;
use mux_client_tab::lines::{FetchBatch, FetchOutcome, LineCache};
use mux_client_tab::render::{CursorPosition, RenderDelta, RenderState, RenderableDimensions};
use mux_client_tab::row_cache::RowKind;

fn line(s: &str) -> Line {
    Line::from_cells(s.chars().collect())
}

fn text(l: &Line) -> String {
    l.cells.iter().collect()
}

fn dims(cols: usize, rows: usize, top: i64) -> RenderableDimensions {
    RenderableDimensions {
        cols,
        viewport_rows: rows,
        scrollback_rows: rows,
        physical_top: top,
        scrollback_top: 0,
    }
}

fn delta(
    dirty: Vec<(i64, i64)>,
    bonus: Vec<(i64, Line)>,
    cursor: (usize, i64),
    d: RenderableDimensions,
) -> RenderDelta {
    RenderDelta {
        dirty_lines: dirty,
        bonus_lines: bonus,
        cursor_position: CursorPosition { x: cursor.0, y: cursor.1 },
        dimensions: d,
        title: "remote".to_string(),
        working_dir: None,
        mouse_grabbed: false,
    }
}

fn sorted(mut v: Vec<i64>) -> Vec<i64> {
    v.sort();
    v
}

fn kind(state: &RenderState, row: i64) -> Option<RowKind> {
    state.lines().row_kind(row).map(|k| k.0)
}

#[test]
fn poll_diff_then_fetch_then_read() {
    let mut state = RenderState::new(80, 24, "t", 0);
    // Put the cursor at (0, 2) without leaving anything cached.
    let first = state.apply_changes(delta(vec![], vec![], (0, 2), dims(80, 24, 0)));
    assert!(state.admit_batch(first.fetch, false).is_none());
    assert_eq!(kind(&state, 2), None);

    let out = state.apply_changes(delta(vec![(5, 10)], vec![], (0, 6), dims(80, 24, 0)));
    assert!(out.redraw);
    assert_eq!(sorted(out.fetch.rows.clone()), vec![2, 5, 6, 7, 8, 9]);
    for r in [2, 5, 6, 7, 8, 9] {
        assert_eq!(kind(&state, r), Some(RowKind::Fetching));
    }
    let batch = state.admit_batch(out.fetch, true).expect("admitted batch with rows");
    assert_eq!(sorted(batch.rows.clone()), vec![2, 5, 6, 7, 8, 9]);

    let reply: Vec<(i64, Line)> = [2, 5, 6, 7, 8, 9]
        .iter()
        .map(|r| (*r, line(&format!("row {}", r))))
        .collect();
    state.apply_lines(&batch, FetchOutcome::Lines(reply));
    for r in [2, 5, 6, 7, 8, 9] {
        assert_eq!(kind(&state, r), Some(RowKind::Dirty));
    }

    let (lines, more) = state.get_lines(5, 10);
    assert_eq!(lines.len(), 5);
    for (i, l) in lines.iter().enumerate() {
        assert_eq!(text(l), format!("row {}", 5 + i));
    }
    assert!(more.rows.is_empty());
    for r in 5..10 {
        assert_eq!(kind(&state, r), Some(RowKind::Rendered));
    }
    let (dirty, _) = state.get_dirty_lines(5, 10, 0);
    assert!(dirty.is_empty());
}

fn rendered_rows(state: &mut RenderState, rows: &[i64]) {
    let bonus: Vec<(i64, Line)> = rows.iter().map(|r| (*r, line(&format!("old {}", r)))).collect();
    let out = state.apply_changes(delta(vec![], bonus, (0, 0), dims(80, 24, 0)));
    assert!(out.fetch.rows.is_empty());
    let lo = *rows.iter().min().unwrap();
    let hi = *rows.iter().max().unwrap() + 1;
    let _ = state.get_lines(lo, hi);
}

#[test]
fn resize_makes_rendered_rows_stale() {
    let mut state = RenderState::new(80, 24, "t", 0);
    rendered_rows(&mut state, &[0, 1, 2]);
    for r in 0..3 {
        assert_eq!(kind(&state, r), Some(RowKind::Rendered));
    }
    assert!(state.resize(100, 30));
    assert_eq!(state.get_dimensions().cols, 100);
    assert_eq!(state.get_dimensions().viewport_rows, 30);
    for r in 0..3 {
        assert_eq!(kind(&state, r), Some(RowKind::Stale));
    }
    let (lines, batch) = state.get_lines(1, 2);
    assert_eq!(text(&lines[0]), "old 1");
    assert_eq!(batch.rows, vec![1]);
    assert_eq!(kind(&state, 1), Some(RowKind::DirtyAndFetching));
}

#[test]
fn resize_to_same_size_changes_nothing() {
    let mut state = RenderState::new(80, 24, "t", 0);
    rendered_rows(&mut state, &[3]);
    assert!(!state.resize(80, 24));
    assert_eq!(kind(&state, 3), Some(RowKind::Rendered));
}

#[test]
fn resize_leaves_rows_mid_fetch() {
    let mut state = RenderState::new(80, 24, "t", 0);
    let (_, batch) = state.get_lines(0, 1);
    assert!(state.resize(81, 24));
    assert_eq!(kind(&state, 0), Some(RowKind::Fetching));
    state.apply_lines(&batch, FetchOutcome::Lines(vec![(0, line("x"))]));
    assert_eq!(kind(&state, 0), Some(RowKind::Dirty));
}

#[test]
fn same_content_redelivered_stays_rendered() {
    let mut state = RenderState::new(80, 24, "t", 0);
    rendered_rows(&mut state, &[4]);
    let out = state.apply_changes(delta(vec![], vec![(4, line("old 4"))], (0, 0), dims(80, 24, 0)));
    assert!(!out.redraw);
    assert_eq!(kind(&state, 4), Some(RowKind::Rendered));
    state.apply_changes(delta(vec![], vec![(4, line("new 4"))], (0, 0), dims(80, 24, 0)));
    assert_eq!(kind(&state, 4), Some(RowKind::Dirty));
}

#[test]
fn bonus_rows_are_not_fetched() {
    let mut state = RenderState::new(80, 24, "t", 0);
    let out = state.apply_changes(delta(vec![(0, 3)], vec![(1, line("b"))], (0, 0), dims(80, 24, 0)));
    assert_eq!(sorted(out.fetch.rows.clone()), vec![0, 2]);
    assert_eq!(kind(&state, 1), Some(RowKind::Dirty));
    assert_eq!(kind(&state, 0), Some(RowKind::Fetching));
}

#[test]
fn rows_above_viewport_go_stale() {
    let mut state = RenderState::new(80, 24, "t", 0);
    rendered_rows(&mut state, &[1, 2]);
    let out = state.apply_changes(delta(vec![(0, 5)], vec![], (0, 0), dims(80, 24, 3)));
    assert_eq!(sorted(out.fetch.rows.clone()), vec![3, 4]);
    assert_eq!(kind(&state, 1), Some(RowKind::Stale));
    assert_eq!(kind(&state, 2), Some(RowKind::Stale));
    assert_eq!(kind(&state, 0), None);
    assert_eq!(kind(&state, 3), Some(RowKind::Fetching));
}

#[test]
fn refused_batch_leaves_nothing_fetching() {
    let mut state = RenderState::new(80, 24, "t", 0);
    rendered_rows(&mut state, &[0]);
    let out = state.apply_changes(delta(vec![(0, 3)], vec![], (0, 0), dims(80, 24, 0)));
    assert_eq!(kind(&state, 0), Some(RowKind::DirtyAndFetching));
    assert!(state.admit_batch(out.fetch, false).is_none());
    assert_eq!(kind(&state, 0), Some(RowKind::Stale));
    assert_eq!(kind(&state, 1), None);
    assert_eq!(kind(&state, 2), None);
}

#[test]
fn empty_batch_is_not_sent() {
    let mut state = RenderState::new(80, 24, "t", 0);
    let out = state.apply_changes(delta(vec![], vec![], (0, 0), dims(80, 24, 0)));
    assert!(!out.redraw);
    assert!(state.admit_batch(out.fetch, true).is_none());
}

#[test]
fn older_reply_does_not_overwrite_newer() {
    let mut state = RenderState::new(80, 24, "t", 0);
    let (_, first) = state.get_lines(7, 8);
    let second = state.apply_changes(delta(vec![(7, 8)], vec![], (0, 0), dims(80, 24, 0))).fetch;
    assert!(first.epoch < second.epoch);
    state.apply_lines(&second, FetchOutcome::Lines(vec![(7, line("newer"))]));
    state.apply_lines(&first, FetchOutcome::Lines(vec![(7, line("older"))]));
    assert_eq!(kind(&state, 7), Some(RowKind::Dirty));
    assert_eq!(text(&state.lines().row_content(7).unwrap()), "newer");
}

#[test]
fn older_reply_while_newer_pending_is_ignored() {
    let mut state = RenderState::new(80, 24, "t", 0);
    let (_, first) = state.get_lines(7, 8);
    let second = state.apply_changes(delta(vec![(7, 8)], vec![], (0, 0), dims(80, 24, 0))).fetch;
    state.apply_lines(&first, FetchOutcome::Lines(vec![(7, line("older"))]));
    assert_eq!(state.lines().row_kind(7), Some((RowKind::Fetching, Some(second.epoch))));
}

#[test]
fn failed_fetch_reverts_rows() {
    let mut state = RenderState::new(80, 24, "t", 0);
    rendered_rows(&mut state, &[0]);
    let out = state.apply_changes(delta(vec![(0, 2)], vec![], (0, 0), dims(80, 24, 0)));
    let batch = state.admit_batch(out.fetch, true).unwrap();
    state.apply_lines(&batch, FetchOutcome::Failed);
    assert_eq!(kind(&state, 0), Some(RowKind::Dirty));
    assert_eq!(text(&state.lines().row_content(0).unwrap()), "old 0");
    assert_eq!(kind(&state, 1), None);
}

#[test]
fn read_of_unknown_rows_is_blank_and_fetches() {
    let mut state = RenderState::new(4, 24, "t", 0);
    let (lines, batch) = state.get_lines(10, 12);
    assert_eq!(lines.len(), 2);
    assert_eq!(text(&lines[0]), "    ");
    assert_eq!(batch.rows, vec![10, 11]);
    let (again, none) = state.get_lines(10, 12);
    assert_eq!(text(&again[1]), "    ");
    assert!(none.rows.is_empty());
}

#[test]
fn dirty_rows_include_unknown_and_fetching_with_content() {
    let mut state = RenderState::new(80, 24, "t", 0);
    rendered_rows(&mut state, &[0, 1]);
    state.apply_changes(delta(vec![(1, 2)], vec![], (0, 0), dims(80, 24, 0)));
    let (dirty, _) = state.get_dirty_lines(0, 3, 0);
    assert_eq!(dirty, vec![1, 2]);
    let (empty, _) = state.get_dirty_lines(3, 3, 0);
    assert!(empty.is_empty());
}

#[test]
fn diff_replaces_cursor_title_and_size() {
    let mut state = RenderState::new(80, 24, "t", 0);
    let mut d = delta(vec![], vec![], (3, 4), dims(90, 20, 0));
    d.title = "shell".to_string();
    d.working_dir = Some("file:///tmp".to_string());
    state.apply_changes(d);
    assert_eq!(state.get_cursor_position(), CursorPosition { x: 3, y: 4 });
    assert_eq!(state.get_dimensions().cols, 90);
    assert_eq!(state.get_title(), "shell");
    assert_eq!(state.get_working_dir(), Some("file:///tmp".to_string()));
}

#[test]
fn poll_backoff_and_reset() {
    let mut state = RenderState::new(80, 24, "t", 0);
    assert_eq!(state.poll_interval_ms(), 20);
    let (_, due) = state.get_dirty_lines(0, 0, 10);
    assert!(!due);
    assert_eq!(state.poll_interval_ms(), 40);
    let (_, due) = state.get_dirty_lines(0, 0, 100);
    assert!(due);
    assert_eq!(state.poll_interval_ms(), 80);
    // A poll is outstanding: nothing changes.
    let (_, due) = state.get_dirty_lines(0, 0, 100_000);
    assert!(!due);
    assert_eq!(state.poll_interval_ms(), 80);
    state.poll_finished(Ok(()));
    state.apply_changes(delta(vec![], vec![], (0, 0), dims(80, 24, 0)));
    assert_eq!(state.poll_interval_ms(), 20);
}

#[test]
fn line_cache_starts_empty() {
    let cache = LineCache::new();
    assert_eq!(cache.row_kind(0), None);
    assert_eq!(cache.next_epoch(), 0);
    let b = FetchBatch { rows: vec![], epoch: 0 };
    assert!(b.rows.is_empty());
}

#[test]
fn unknown_row_above_viewport_asks_no_redraw() {
    let mut state = RenderState::new(80, 24, "t", 0);
    let out = state.apply_changes(delta(vec![(0, 2)], vec![], (0, 0), dims(80, 24, 5)));
    assert!(!out.redraw);
    assert!(out.fetch.rows.is_empty());
    assert_eq!(kind(&state, 0), None);
    assert_eq!(kind(&state, 1), None);
}

#[test]
fn changed_delivery_asks_redraw() {
    let mut state = RenderState::new(80, 24, "t", 0);
    rendered_rows(&mut state, &[4]);
    let out = state.apply_changes(delta(vec![], vec![(4, line("new 4"))], (0, 0), dims(80, 24, 0)));
    assert!(out.redraw);
    assert_eq!(kind(&state, 4), Some(RowKind::Dirty));
}

#[test]
fn reversed_read_range_is_empty() {
    let mut state = RenderState::new(80, 24, "t", 0);
    let (lines, batch) = state.get_lines(9, 3);
    assert!(lines.is_empty());
    assert!(batch.rows.is_empty());
    assert_eq!(kind(&state, 5), None);
}

#[test]
fn dirty_rows_come_in_ascending_order() {
    let mut state = RenderState::new(80, 24, "t", 0);
    rendered_rows(&mut state, &[1, 2]);
    let (rows, _) = state.get_dirty_lines(0, 5, 0);
    assert_eq!(rows, vec![0, 3, 4]);
}
