use vstd::prelude::*;
use crate::line::Line;
use crate::lines::{
    FetchBatch, FetchOutcome, LineCache, StableRowIndex, after_diff, after_read, lines_view,
    needs_render, refused, reported, shown, waits_for,
};
use crate::poll::{PollFailure, PollScheduler, BASE_POLL_INTERVAL_MS, backed_off, poll_due};

verus! {

/// Where the cursor stands: a column and a stable row.
#[derive(Clone, Copy, PartialEq, Eq, Structural, Debug)]
pub struct CursorPosition {
    pub x: usize,
    pub y: StableRowIndex,
}

/// The size of the terminal and where its viewport and scrollback begin.
#[derive(Clone, Copy, PartialEq, Eq, Structural, Debug)]
pub struct RenderableDimensions {
    pub cols: usize,
    pub viewport_rows: usize,
    pub scrollback_rows: usize,
    pub physical_top: StableRowIndex,
    pub scrollback_top: StableRowIndex,
}

/// A diff pushed or polled from the remote endpoint.
pub struct RenderDelta {
    /// Half-open ranges of rows that changed.
    pub dirty_lines: Vec<(StableRowIndex, StableRowIndex)>,
    /// Rows whose new content came with the diff.
    pub bonus_lines: Vec<(StableRowIndex, Line)>,
    pub cursor_position: CursorPosition,
    pub dimensions: RenderableDimensions,
    pub title: String,
    pub working_dir: Option<String>,
    pub mouse_grabbed: bool,
}

/// What applying a diff asks of the caller: whether to redraw, and the rows
/// to fetch.
pub struct DiffOutcome {
    pub redraw: bool,
    pub fetch: FetchBatch,
}

/// The rows that the cursor moved from and to, if it moved.
pub open spec fn cursor_rows(old: CursorPosition, new: CursorPosition) -> Option<(StableRowIndex, StableRowIndex)> {
    if old != new {
        Some((old.y, new.y))
    } else {
        None
    }
}

/// The local copy of a remote terminal's screen: rows, cursor, size, title,
/// working directory, and when to poll for changes.
pub struct RenderState {
    lines: LineCache,
    cursor: CursorPosition,
    dimensions: RenderableDimensions,
    title: String,
    working_dir: Option<String>,
    poll: PollScheduler,
}

impl RenderState {
    pub closed spec fn cache(&self) -> LineCache {
        self.lines
    }

    pub closed spec fn cursor(&self) -> CursorPosition {
        self.cursor
    }

    pub closed spec fn dims(&self) -> RenderableDimensions {
        self.dimensions
    }

    pub closed spec fn title_view(&self) -> Seq<char> {
        self.title@
    }

    pub closed spec fn working_dir_view(&self) -> Option<String> {
        self.working_dir
    }

    pub closed spec fn scheduler(&self) -> PollScheduler {
        self.poll
    }

    pub open spec fn wf(&self) -> bool {
        self.cache().wf() && self.scheduler().wf()
    }

    /// A state of `cols` by `rows` with nothing cached, polled last at `now_ms`.
    pub fn new(cols: usize, rows: usize, title: &str, now_ms: u64) -> (r: RenderState)
        ensures
            r.wf(),
            r.cache().epoch() == 0,
            forall|y: i64| r.cache().row(y) is None,
            r.cursor() == (CursorPosition { x: 0, y: 0 }),
            r.dims() == (RenderableDimensions {
                cols,
                viewport_rows: rows,
                scrollback_rows: rows,
                physical_top: 0,
                scrollback_top: 0,
            }),
            r.title_view() == title@,
            r.working_dir_view() is None,
            r.scheduler().interval() == BASE_POLL_INTERVAL_MS,
            r.scheduler().last_poll() == now_ms,
            !r.scheduler().polling(),
            !r.scheduler().dead(),
    {
        RenderState {
            lines: LineCache::new(),
            cursor: CursorPosition { x: 0, y: 0 },
            dimensions: RenderableDimensions {
                cols,
                viewport_rows: rows,
                scrollback_rows: rows,
                physical_top: 0,
                scrollback_top: 0,
            },
            title: title.to_owned(),
            working_dir: None,
            poll: PollScheduler::new(now_ms),
        }
    }

    /// Applies a diff: cursor, size, title and working directory are
    /// replaced; rows change as `after_diff` says, with the rows that the
    /// cursor left and entered counted as reported; the poll interval falls
    /// back to its base. The caller is told to redraw exactly when some
    /// row's state changed, and has the returned batch admitted; the rows of
    /// that batch are exactly those waiting for its epoch.
    pub fn apply_changes(&mut self, delta: RenderDelta) -> (r: DiffOutcome)
        requires
            old(self).wf(),
            old(self).cache().epoch() < u64::MAX,
        ensures
            final(self).wf(),
            final(self).cursor() == delta.cursor_position,
            final(self).dims() == delta.dimensions,
            final(self).title_view() == delta.title@,
            final(self).working_dir_view() == delta.working_dir,
            final(self).scheduler().interval() == BASE_POLL_INTERVAL_MS,
            final(self).scheduler().last_poll() == old(self).scheduler().last_poll(),
            final(self).scheduler().polling() == old(self).scheduler().polling(),
            final(self).scheduler().dead() == old(self).scheduler().dead(),
            final(self).cache().epoch() == old(self).cache().epoch() + 1,
            r.fetch.epoch == old(self).cache().epoch(),
            forall|y: i64| #[trigger] final(self).cache().row(y) == after_diff(
                old(self).cache().row(y),
                delta.dirty_lines@,
                lines_view(delta.bonus_lines@),
                cursor_rows(old(self).cursor(), delta.cursor_position),
                delta.dimensions.physical_top,
                r.fetch.epoch,
                y,
            ),
            r.fetch.rows@.no_duplicates(),
            forall|y: i64| #[trigger] r.fetch.rows@.contains(y) <==> (reported(
                delta.dirty_lines@,
                lines_view(delta.bonus_lines@),
                cursor_rows(old(self).cursor(), delta.cursor_position),
                y,
            ) && y >= delta.dimensions.physical_top),
            forall|y: i64| #[trigger] waits_for(final(self).cache().row(y), r.fetch.epoch)
                <==> r.fetch.rows@.contains(y),
            r.redraw <==> exists|y: i64| final(self).cache().row(y) != old(self).cache().row(y),
    {
        self.poll.reset_interval();
        let moved = if delta.cursor_position != self.cursor {
            Some((self.cursor.y, delta.cursor_position.y))
        } else {
            None
        };
        let (redraw, fetch) = self.lines.apply_diff_rows(
            &delta.dirty_lines,
            &delta.bonus_lines,
            moved,
            delta.dimensions.physical_top,
        );
        self.cursor = delta.cursor_position;
        self.dimensions = delta.dimensions;
        self.title = delta.title;
        self.working_dir = delta.working_dir;
        DiffOutcome { redraw, fetch }
    }

    /// Decides on a batch once the rate limiter has answered for it. An
    /// admitted batch with rows is handed back, to be requested once; a
    /// refused one is withdrawn, none of its rows left marked as fetching.
    pub fn admit_batch(&mut self, batch: FetchBatch, admitted: bool) -> (r: Option<FetchBatch>)
        requires
            old(self).wf(),
        ensures
            final(self).wf(),
            final(self).cursor() == old(self).cursor(),
            final(self).dims() == old(self).dims(),
            final(self).scheduler() == old(self).scheduler(),
            final(self).cache().epoch() == old(self).cache().epoch(),
            admitted && batch.rows@.len() > 0 ==> r == Some(batch),
            !(admitted && batch.rows@.len() > 0) ==> r is None,
            forall|y: i64| #[trigger] final(self).cache().row(y) == if !admitted && batch.rows@.contains(y) {
                refused(old(self).cache().row(y))
            } else {
                old(self).cache().row(y)
            },
    {
        if admitted {
            if batch.rows.len() > 0 {
                Some(batch)
            } else {
                None
            }
        } else {
            self.lines.refuse_batch(&batch);
            None
        }
    }

    /// Reconciles the outcome of a requested batch (see `LineCache::apply_lines`).
    pub fn apply_lines(&mut self, batch: &FetchBatch, outcome: FetchOutcome)
        requires
            old(self).wf(),
        ensures
            final(self).wf(),
            final(self).cursor() == old(self).cursor(),
            final(self).dims() == old(self).dims(),
            final(self).scheduler() == old(self).scheduler(),
            final(self).cache().epoch() == old(self).cache().epoch(),
            match outcome {
                FetchOutcome::Lines(v) => forall|y: i64| #[trigger] final(self).cache().row(y)
                    == crate::lines::replied(old(self).cache().row(y), lines_view(v@), y, batch.epoch),
                FetchOutcome::Failed => forall|y: i64| #[trigger] final(self).cache().row(y)
                    == if batch.rows@.contains(y) {
                        crate::lines::fetch_failed(old(self).cache().row(y), batch.epoch)
                    } else {
                        old(self).cache().row(y)
                    },
            },
    {
        self.lines.apply_lines(batch, outcome);
    }

    /// Rows `start..end` for display (see `LineCache::get_lines`), blank ones
    /// as wide as the terminal; a reversed range holds no rows.
    pub fn get_lines(&mut self, start: StableRowIndex, end: StableRowIndex) -> (r: (Vec<Line>, FetchBatch))
        requires
            old(self).wf(),
            old(self).cache().epoch() < u64::MAX,
        ensures
            final(self).wf(),
            final(self).cursor() == old(self).cursor(),
            final(self).dims() == old(self).dims(),
            final(self).scheduler() == old(self).scheduler(),
            final(self).cache().epoch() == old(self).cache().epoch() + 1,
            r.0@.len() == if start <= end {
                end - start
            } else {
                0
            },
            forall|i: int| 0 <= i < end - start ==> #[trigger] r.0@[i]@ == shown(
                old(self).cache().row((start + i) as i64),
                old(self).dims().cols as nat,
            ),
            forall|y: i64| #[trigger] final(self).cache().row(y) == if start <= y < end {
                after_read(old(self).cache().row(y), r.1.epoch)
            } else {
                old(self).cache().row(y)
            },
            r.1.epoch == old(self).cache().epoch(),
            r.1.rows@.no_duplicates(),
            forall|y: i64| #[trigger] r.1.rows@.contains(y) <==> (start <= y < end
                && crate::lines::read_fetches(old(self).cache().row(y))),
    {
        let cols = self.dimensions.cols;
        self.lines.get_lines(start, end, cols)
    }

    /// The rows of `start..end` that need rendering, in ascending order (see
    /// `LineCache::get_dirty_rows`), and whether a poll is due now, at
    /// `now_ms` (see `PollScheduler::should_poll`).
    pub fn get_dirty_lines(&mut self, start: StableRowIndex, end: StableRowIndex, now_ms: u64) -> (r: (
        Vec<StableRowIndex>,
        bool,
    ))
        requires
            old(self).wf(),
        ensures
            final(self).wf(),
            final(self).cache() == old(self).cache(),
            final(self).cursor() == old(self).cursor(),
            final(self).dims() == old(self).dims(),
            r.0@.no_duplicates(),
            forall|i: int, j: int| 0 <= i < j < r.0@.len() ==> r.0@[i] < r.0@[j],
            forall|y: i64| #[trigger] r.0@.contains(y) <==> (start <= y < end && needs_render(
                old(self).cache().row(y),
            )),
            r.1 == poll_due(old(self).scheduler(), now_ms),
            r.1 ==> final(self).scheduler().polling() && final(self).scheduler().last_poll() == now_ms,
            final(self).scheduler().dead() == old(self).scheduler().dead(),
            !old(self).scheduler().polling() ==> final(self).scheduler().interval() == backed_off(
                old(self).scheduler().interval(),
            ),
            old(self).scheduler().polling() ==> final(self).scheduler() == old(self).scheduler(),
    {
        let due = self.poll.should_poll(now_ms);
        let rows = self.lines.get_dirty_rows(start, end);
        (rows, due)
    }

    /// The outstanding poll finished (see `PollScheduler::poll_finished`).
    pub fn poll_finished(&mut self, outcome: Result<(), PollFailure>)
        requires
            old(self).wf(),
        ensures
            final(self).wf(),
            final(self).cache() == old(self).cache(),
            final(self).cursor() == old(self).cursor(),
            final(self).dims() == old(self).dims(),
            !final(self).scheduler().polling(),
            final(self).scheduler().interval() == old(self).scheduler().interval(),
            final(self).scheduler().dead() == (old(self).scheduler().dead() || outcome == Err::<(), PollFailure>(
                PollFailure::Fatal,
            )),
    {
        self.poll.poll_finished(outcome);
    }

    /// Takes a new size. Only when the columns or the viewport rows differ
    /// does anything change: the size is updated and every row not being
    /// fetched becomes stale. Tells whether it changed.
    pub fn resize(&mut self, cols: usize, rows: usize) -> (r: bool)
        requires
            old(self).wf(),
        ensures
            final(self).wf(),
            r == (old(self).dims().cols != cols || old(self).dims().viewport_rows != rows),
            final(self).cursor() == old(self).cursor(),
            final(self).scheduler() == old(self).scheduler(),
            final(self).cache().epoch() == old(self).cache().epoch(),
            !r ==> *final(self) == *old(self),
            final(self).title_view() == old(self).title_view(),
            final(self).working_dir_view() == old(self).working_dir_view(),
            r ==> final(self).dims() == (RenderableDimensions {
                cols,
                viewport_rows: rows,
                ..old(self).dims()
            }),
            r ==> forall|y: i64| #[trigger] final(self).cache().row(y) == crate::lines::invalidated(
                old(self).cache().row(y),
            ),
    {
        if self.dimensions.cols != cols || self.dimensions.viewport_rows != rows {
            self.dimensions.cols = cols;
            self.dimensions.viewport_rows = rows;
            self.lines.make_all_stale();
            true
        } else {
            false
        }
    }

    /// The row cache, to read from.
    pub fn lines(&self) -> (r: &LineCache)
        ensures
            *r == self.cache(),
    {
        &self.lines
    }

    pub fn get_cursor_position(&self) -> (r: CursorPosition)
        ensures
            r == self.cursor(),
    {
        self.cursor
    }

    pub fn get_dimensions(&self) -> (r: RenderableDimensions)
        ensures
            r == self.dims(),
    {
        self.dimensions
    }

    pub fn get_title(&self) -> (r: String)
        ensures
            r@ == self.title_view(),
    {
        self.title.clone()
    }

    pub fn get_working_dir(&self) -> (r: Option<String>)
        ensures
            r == self.working_dir_view(),
    {
        self.working_dir.clone()
    }

    pub fn is_dead(&self) -> (r: bool)
        ensures
            r == self.scheduler().dead(),
    {
        self.poll.is_dead()
    }

    pub fn poll_interval_ms(&self) -> (r: u64)
        ensures
            r == self.scheduler().interval(),
    {
        self.poll.interval_ms()
    }
}

} // verus!
