use vstd::prelude::*;
use crate::line::{Line, blank_row};
use crate::row_cache::{
    LineEntry, RowKind, RowState, RowLru, kind_of, cached_entries, cache_new, cache_peek, cache_put, cache_pop, cache_pop_lru,
};

verus! {

/// The stable index of a terminal row: it does not change as scrollback grows.
pub type StableRowIndex = i64;

/// The epoch of a fetch recorded in a state, if any.
pub open spec fn epoch_of(s: RowState) -> Option<u64> {
    match s {
        RowState::Fetching(e) => Some(e),
        RowState::DirtyAndFetching(_, e) => Some(e),
        _ => None,
    }
}

/// Whether a state stands for an outstanding fetch.
pub open spec fn is_fetching(s: RowState) -> bool {
    epoch_of(s).is_some()
}

/// Cache invalidation: content that is not being fetched becomes stale; a
/// row mid-fetch is left as it is so that its reply is not lost.
pub open spec fn invalidated(prior: Option<RowState>) -> Option<RowState> {
    match prior {
        Some(RowState::Rendered(l)) => Some(RowState::Stale(l)),
        Some(RowState::Dirty(l)) => Some(RowState::Stale(l)),
        Some(RowState::Stale(l)) => Some(RowState::Stale(l)),
        other => other,
    }
}

/// A row that a diff reports changed: inside the viewport it is fetched,
/// keeping any content for display; outside, its content becomes stale.
pub open spec fn routed(prior: Option<RowState>, fetchable: bool, epoch: u64) -> Option<RowState> {
    if fetchable {
        match prior {
            None => Some(RowState::Fetching(epoch)),
            Some(RowState::Fetching(_)) => Some(RowState::Fetching(epoch)),
            Some(RowState::Rendered(l)) => Some(RowState::DirtyAndFetching(l, epoch)),
            Some(RowState::Dirty(l)) => Some(RowState::DirtyAndFetching(l, epoch)),
            Some(RowState::DirtyAndFetching(l, _)) => Some(RowState::DirtyAndFetching(l, epoch)),
            Some(RowState::Stale(l)) => Some(RowState::DirtyAndFetching(l, epoch)),
        }
    } else {
        match prior {
            Some(RowState::Rendered(l)) => Some(RowState::Stale(l)),
            Some(RowState::Dirty(l)) => Some(RowState::Stale(l)),
            Some(RowState::DirtyAndFetching(l, _)) => Some(RowState::Stale(l)),
            Some(RowState::Stale(l)) => Some(RowState::Stale(l)),
            other => other,
        }
    }
}

/// Content delivered with a diff: it stays delivered if the renderer already
/// has exactly this content, else it must be delivered again.
pub open spec fn delivered(prior: Option<RowState>, line: Seq<char>) -> RowState {
    match prior {
        Some(RowState::Rendered(p)) => if p == line {
            RowState::Rendered(line)
        } else {
            RowState::Dirty(line)
        },
        _ => RowState::Dirty(line),
    }
}

/// A fetch reply for a row: taken only if the row still waits for exactly
/// that fetch.
pub open spec fn fetched(prior: Option<RowState>, line: Seq<char>, epoch: u64) -> Option<RowState> {
    match prior {
        Some(s) => if epoch_of(s) == Some(epoch) {
            Some(RowState::Dirty(line))
        } else {
            prior
        },
        None => None,
    }
}

/// A failed fetch: the row forgets the fetch if it still waits for it.
pub open spec fn fetch_failed(prior: Option<RowState>, epoch: u64) -> Option<RowState> {
    match prior {
        Some(RowState::Fetching(e)) => if e == epoch {
            None
        } else {
            prior
        },
        Some(RowState::DirtyAndFetching(l, e)) => if e == epoch {
            Some(RowState::Dirty(l))
        } else {
            prior
        },
        _ => prior,
    }
}

/// A batch that may not be requested: no row stays marked as fetching;
/// content is kept as stale.
pub open spec fn refused(prior: Option<RowState>) -> Option<RowState> {
    match prior {
        Some(RowState::Fetching(_)) => None,
        Some(RowState::DirtyAndFetching(l, _)) => Some(RowState::Stale(l)),
        _ => prior,
    }
}

/// What a read shows for a row, given the current width.
pub open spec fn shown(prior: Option<RowState>, cols: nat) -> Seq<char> {
    match prior {
        Some(RowState::Rendered(l)) => l,
        Some(RowState::Dirty(l)) => l,
        Some(RowState::DirtyAndFetching(l, _)) => l,
        Some(RowState::Stale(l)) => l,
        _ => blank_row(cols),
    }
}

/// The state of a row after a read.
pub open spec fn after_read(prior: Option<RowState>, epoch: u64) -> Option<RowState> {
    match prior {
        None => Some(RowState::Fetching(epoch)),
        Some(RowState::Dirty(l)) => Some(RowState::Rendered(l)),
        Some(RowState::Stale(l)) => Some(RowState::DirtyAndFetching(l, epoch)),
        other => other,
    }
}

/// Whether a read of the row asks for it to be fetched.
pub open spec fn read_fetches(prior: Option<RowState>) -> bool {
    match prior {
        None => true,
        Some(RowState::Stale(_)) => true,
        _ => false,
    }
}

/// Whether the renderer has yet to be given the row's current content.
pub open spec fn needs_render(prior: Option<RowState>) -> bool {
    match prior {
        None => true,
        Some(RowState::Dirty(_)) => true,
        Some(RowState::DirtyAndFetching(_, _)) => true,
        _ => false,
    }
}

proof fn fetch_failed_idempotent(p: Option<RowState>, e: u64)
    ensures
        fetch_failed(fetch_failed(p, e), e) == fetch_failed(p, e),
{
}

proof fn refused_idempotent(p: Option<RowState>)
    ensures
        refused(refused(p)) == refused(p),
{
}

proof fn push_fresh(s: Seq<i64>, x: i64)
    requires
        s.no_duplicates(),
        !s.contains(x),
    ensures
        s.push(x).no_duplicates(),
        forall|y: i64| #[trigger] s.push(x).contains(y) <==> (s.contains(y) || y == x),
{
    let t = s.push(x);
    assert forall|y: i64| #[trigger] t.contains(y) <==> (s.contains(y) || y == x) by {
        if y == x {
            assert(t[s.len() as int] == x);
        }
        if s.contains(y) {
            let i = choose|i: int| 0 <= i < s.len() && s[i] == y;
            assert(t[i] == y);
        }
        if t.contains(y) && y != x {
            let i = choose|i: int| 0 <= i < t.len() && t[i] == y;
            assert(s[i] == y);
        }
    }
    assert forall|i: int, j: int| 0 <= i < t.len() && 0 <= j < t.len() && i != j implies t[i] != t[j] by {
        if i < s.len() && j < s.len() {
        } else if i < s.len() {
            assert(s.contains(s[i]));
        } else {
            assert(s.contains(s[j]));
        }
    }
}

/// A batch of rows requested together, tagged with the epoch of the request.
pub struct FetchBatch {
    pub rows: Vec<StableRowIndex>,
    pub epoch: u64,
}

/// What came back for a batch of rows.
pub enum FetchOutcome {
    /// Content for some or all of the rows that were asked for.
    Lines(Vec<(StableRowIndex, Line)>),
    /// The request failed.
    Failed,
}

/// Rows paired with contents, as values.
pub open spec fn lines_view(v: Seq<(StableRowIndex, Line)>) -> Seq<(StableRowIndex, Seq<char>)> {
    v.map_values(|p: (StableRowIndex, Line)| (p.0, p.1@))
}

/// The state of row `x` after the rows of a reply are taken in order.
pub open spec fn replied(
    prior: Option<RowState>,
    v: Seq<(StableRowIndex, Seq<char>)>,
    x: StableRowIndex,
    epoch: u64,
) -> Option<RowState>
    decreases v.len(),
{
    if v.len() == 0 {
        prior
    } else {
        let p = replied(prior, v.drop_last(), x, epoch);
        if v.last().0 == x {
            fetched(p, v.last().1, epoch)
        } else {
            p
        }
    }
}

/// Whether `y` lies in one of the half-open ranges.
pub open spec fn in_ranges(rs: Seq<(StableRowIndex, StableRowIndex)>, y: StableRowIndex) -> bool
    decreases rs.len(),
{
    if rs.len() == 0 {
        false
    } else {
        in_ranges(rs.drop_last(), y) || (rs.last().0 <= y < rs.last().1)
    }
}

/// Whether content for row `y` is among the rows delivered with a diff.
pub open spec fn in_bonus(b: Seq<(StableRowIndex, Seq<char>)>, y: StableRowIndex) -> bool
    decreases b.len(),
{
    if b.len() == 0 {
        false
    } else {
        in_bonus(b.drop_last(), y) || b.last().0 == y
    }
}

/// The state of row `y` after the contents delivered with a diff are taken
/// in order.
pub open spec fn bonus_state(
    prior: Option<RowState>,
    b: Seq<(StableRowIndex, Seq<char>)>,
    y: StableRowIndex,
) -> Option<RowState>
    decreases b.len(),
{
    if b.len() == 0 {
        prior
    } else {
        let p = bonus_state(prior, b.drop_last(), y);
        if b.last().0 == y {
            Some(delivered(p, b.last().1))
        } else {
            p
        }
    }
}

/// Whether a diff reports row `y` as changed without delivering it: it lies
/// in a dirty range, or the cursor moved from or to it.
pub open spec fn reported(
    rs: Seq<(StableRowIndex, StableRowIndex)>,
    b: Seq<(StableRowIndex, Seq<char>)>,
    moved: Option<(StableRowIndex, StableRowIndex)>,
    y: StableRowIndex,
) -> bool {
    (in_ranges(rs, y) || (moved matches Some((a, c)) && (y == a || y == c))) && !in_bonus(b, y)
}

/// The state of row `y` after a diff: delivered content is taken as it is,
/// reported rows are routed by whether they lie at or below `top`.
pub open spec fn after_diff(
    prior: Option<RowState>,
    rs: Seq<(StableRowIndex, StableRowIndex)>,
    b: Seq<(StableRowIndex, Seq<char>)>,
    moved: Option<(StableRowIndex, StableRowIndex)>,
    top: StableRowIndex,
    epoch: u64,
    y: StableRowIndex,
) -> Option<RowState> {
    if in_bonus(b, y) {
        bonus_state(prior, b, y)
    } else if reported(rs, b, moved, y) {
        routed(prior, y >= top, epoch)
    } else {
        prior
    }
}

proof fn routed_idempotent(p: Option<RowState>, f: bool, e: u64)
    ensures
        routed(routed(p, f, e), f, e) == routed(p, f, e),
{
}

proof fn bonus_state_outside(prior: Option<RowState>, b: Seq<(StableRowIndex, Seq<char>)>, y: StableRowIndex)
    requires
        !in_bonus(b, y),
    ensures
        bonus_state(prior, b, y) == prior,
    decreases b.len(),
{
    if b.len() > 0 {
        bonus_state_outside(prior, b.drop_last(), y);
    }
}

/// The state that an optional entry stands for.
pub open spec fn entry_state(e: Option<LineEntry>) -> Option<RowState> {
    match e {
        Some(v) => Some(v@),
        None => None,
    }
}

/// Whether a row waits for the fetch of exactly this epoch.
pub open spec fn waits_for(s: Option<RowState>, epoch: u64) -> bool {
    s matches Some(st) && epoch_of(st) == Some(epoch)
}

proof fn in_bonus_index(v: Seq<(StableRowIndex, Seq<char>)>, y: StableRowIndex)
    ensures
        in_bonus(v, y) <==> exists|k: int| 0 <= k < v.len() && (#[trigger] v[k]).0 == y,
    decreases v.len(),
{
    if v.len() > 0 {
        let init = v.drop_last();
        in_bonus_index(init, y);
        if in_bonus(init, y) {
            let k = choose|k: int| 0 <= k < init.len() && (#[trigger] init[k]).0 == y;
            assert(v[k] == init[k]);
        } else if v.last().0 == y {
            assert(v[v.len() - 1].0 == y);
        }
        if exists|k: int| 0 <= k < v.len() && (#[trigger] v[k]).0 == y {
            let k = choose|k: int| 0 <= k < v.len() && (#[trigger] v[k]).0 == y;
            if k < v.len() - 1 {
                assert(init[k] == v[k]);
            }
        }
    }
}

proof fn bonus_state_delivered(prior: Option<RowState>, b: Seq<(StableRowIndex, Seq<char>)>, y: StableRowIndex)
    requires
        in_bonus(b, y),
    ensures
        bonus_state(prior, b, y) is Some,
        !is_fetching(bonus_state(prior, b, y).unwrap()),
    decreases b.len(),
{
    if !(b.last().0 == y) {
        bonus_state_delivered(prior, b.drop_last(), y);
    }
}

/// Whether row `y` has content delivered in `b`.
fn bonus_has(b: &Vec<(StableRowIndex, Line)>, y: StableRowIndex) -> (r: bool)
    ensures
        r == in_bonus(lines_view(b@), y),
{
    let mut i: usize = 0;
    let mut found = false;
    while i < b.len()
        invariant
            i <= b@.len(),
            found == in_bonus(lines_view(b@.take(i as int)), y),
        decreases b@.len() - i,
    {
        assert(lines_view(b@.take(i + 1)).drop_last() =~= lines_view(b@.take(i as int)));
        if b[i].0 == y {
            found = true;
        }
        i = i + 1;
    }
    assert(b@.take(b@.len() as int) =~= b@);
    found
}

/// Whether `v` holds `y`.
fn holds_row(v: &Vec<StableRowIndex>, y: StableRowIndex) -> (r: bool)
    ensures
        r == v@.contains(y),
{
    let mut i: usize = 0;
    while i < v.len()
        invariant
            i <= v@.len(),
            forall|j: int| 0 <= j < i ==> v@[j] != y,
        decreases v@.len() - i,
    {
        if v[i] == y {
            return true;
        }
        i = i + 1;
    }
    false
}

/// The content that a state keeps, if any.
pub open spec fn content_of(s: Option<RowState>) -> Option<Seq<char>> {
    match s {
        Some(RowState::Rendered(l)) => Some(l),
        Some(RowState::Dirty(l)) => Some(l),
        Some(RowState::DirtyAndFetching(l, _)) => Some(l),
        Some(RowState::Stale(l)) => Some(l),
        _ => None,
    }
}

/// A diff moves each row it reports along one edge of the transition table:
/// in the viewport, a row without content waits for the new fetch and a row
/// with content keeps it while waiting; outside the viewport, content goes
/// stale and a row without content is left as it was. A row whose content
/// came with the diff holds exactly that content, to be delivered unless the
/// renderer already shows it.
pub proof fn diff_follows_transition_table(
    prior: Option<RowState>,
    rs: Seq<(StableRowIndex, StableRowIndex)>,
    b: Seq<(StableRowIndex, Seq<char>)>,
    moved: Option<(StableRowIndex, StableRowIndex)>,
    top: StableRowIndex,
    epoch: u64,
    y: StableRowIndex,
)
    ensures
        ({
            let next = after_diff(prior, rs, b, moved, top, epoch, y);
            &&& reported(rs, b, moved, y) && y >= top && content_of(prior) is None ==> next == Some(
                RowState::Fetching(epoch),
            )
            &&& reported(rs, b, moved, y) && y >= top && content_of(prior) is Some ==> next
                == Some(RowState::DirtyAndFetching(content_of(prior).unwrap(), epoch))
            &&& reported(rs, b, moved, y) && y < top && content_of(prior) is Some ==> next
                == Some(RowState::Stale(content_of(prior).unwrap()))
            &&& reported(rs, b, moved, y) && y < top && content_of(prior) is None ==> next == prior
            &&& b.len() == 1 && b[0].0 == y && !(prior == Some(RowState::Rendered(b[0].1))) ==> next
                == Some(RowState::Dirty(b[0].1))
            &&& !in_bonus(b, y) && !reported(rs, b, moved, y) ==> next == prior
        }),
{
    if b.len() == 1 {
        assert(b.drop_last().len() == 0);
        assert(bonus_state(prior, b.drop_last(), y) == prior);
        assert(in_bonus(b.drop_last(), y) == false);
    }
}

/// Delivering again the content that the renderer already shows, however
/// many times, leaves the row rendered.
pub proof fn redelivery_keeps_rendered(b: Seq<(StableRowIndex, Seq<char>)>, y: StableRowIndex, l: Seq<char>)
    requires
        forall|i: int| 0 <= i < b.len() && (#[trigger] b[i]).0 == y ==> b[i].1 == l,
    ensures
        bonus_state(Some(RowState::Rendered(l)), b, y) == Some(RowState::Rendered(l)),
    decreases b.len(),
{
    if b.len() > 0 {
        let init = b.drop_last();
        assert forall|i: int| 0 <= i < init.len() && (#[trigger] init[i]).0 == y implies init[i].1 == l by {
            assert(init[i] == b[i]);
        }
        redelivery_keeps_rendered(init, y, l);
        assert(b.last() == b[b.len() - 1]);
    }
}

/// A batch that the rate limiter refuses leaves none of its rows marked as
/// fetching: content is kept as stale, and a row without content is
/// forgotten, to be asked for again when it is next read.
pub proof fn refused_rows_not_fetching(prior: Option<RowState>)
    ensures
        refused(prior) is Some ==> !is_fetching(refused(prior).unwrap()),
        content_of(prior) is Some && prior is Some && is_fetching(prior.unwrap()) ==> refused(prior) == Some(
            RowState::Stale(content_of(prior).unwrap()),
        ),
        content_of(prior) is None ==> refused(prior) is None || refused(prior) == prior,
        prior is Some && is_fetching(prior.unwrap()) && content_of(prior) is None ==> refused(prior) is None,
{
}

/// A reply to an older fetch never overwrites a row: once the newer fetch's
/// reply has been taken, the older one leaves the row as the newer one left
/// it; and while the row waits for the newer fetch, the older reply leaves
/// it waiting.
pub proof fn older_reply_never_overwrites(
    prior: Option<RowState>,
    older: Seq<char>,
    newer: Seq<char>,
    e1: u64,
    e2: u64,
)
    requires
        e1 < e2,
        prior is Some,
        epoch_of(prior.unwrap()) == Some(e2),
    ensures
        fetched(fetched(prior, newer, e2), older, e1) == Some(RowState::Dirty(newer)),
        fetched(prior, older, e1) == prior,
{
}

proof fn reroute_changes(mid: LineCache, prev: LineCache, next: LineCache, x: i64, ch: bool, top: i64, e: u64)
    requires
        forall|y: i64| #[trigger] prev.row(y) == mid.row(y) || prev.row(y) == routed(mid.row(y), y >= top, e),
        forall|y: i64| y != x ==> next.row(y) == prev.row(y),
        next.row(x) == prev.row(x) || next.row(x) == routed(prev.row(x), x >= top, e),
        ch == (next.row(x) != prev.row(x)),
    ensures
        forall|y: i64| #[trigger] next.row(y) == mid.row(y) || next.row(y) == routed(mid.row(y), y >= top, e),
        (exists|y: i64| next.row(y) != mid.row(y)) <==> (ch || exists|y: i64| prev.row(y) != mid.row(y)),
{
    routed_idempotent(mid.row(x), x >= top, e);
    assert(prev.row(x) == mid.row(x) || prev.row(x) == routed(mid.row(x), x >= top, e));
    assert forall|y: i64| #[trigger] next.row(y) == mid.row(y) || next.row(y) == routed(mid.row(y), y >= top, e) by {
        if y != x {
            assert(prev.row(y) == mid.row(y) || prev.row(y) == routed(mid.row(y), y >= top, e));
        }
    }
    if ch {
        assert(next.row(x) != mid.row(x));
    }
    if exists|y: i64| next.row(y) != mid.row(y) {
        let y = choose|y: i64| next.row(y) != mid.row(y);
        if y != x {
            assert(prev.row(y) != mid.row(y));
        } else if !ch {
            assert(prev.row(y) != mid.row(y));
        }
    }
    if exists|y: i64| prev.row(y) != mid.row(y) {
        let y = choose|y: i64| prev.row(y) != mid.row(y);
        assert(prev.row(y) == mid.row(y) || prev.row(y) == routed(mid.row(y), y >= top, e));
        if y != x {
            assert(next.row(y) != mid.row(y));
        } else {
            assert(next.row(y) != mid.row(y));
        }
    }
}

/// The rows of a terminal, each in one state, with the epoch that the next
/// fetch will carry.
pub struct LineCache {
    entries: RowLru,
    next_epoch: u64,
}

impl LineCache {
    /// The state of row `x`, if the cache knows it.
    pub closed spec fn row(&self, x: i64) -> Option<RowState> {
        if cached_entries(self.entries).contains_key(x) {
            Some(cached_entries(self.entries)[x]@)
        } else {
            None
        }
    }

    /// The epoch that the next batch of fetches will carry.
    pub closed spec fn epoch(&self) -> u64 {
        self.next_epoch
    }

    /// Every outstanding fetch carries an epoch already handed out.
    pub closed spec fn wf(&self) -> bool {
        forall|x: i64| #[trigger] self.row(x) matches Some(s) ==> match epoch_of(s) {
            Some(e) => e < self.next_epoch,
            None => true,
        }
    }

    /// An empty cache.
    pub fn new() -> (r: LineCache)
        ensures
            r.wf(),
            r.epoch() == 0,
            forall|x: i64| r.row(x) is None,
    {
        LineCache { entries: cache_new(), next_epoch: 0 }
    }

    /// The epoch that the next batch of fetches will carry.
    pub fn next_epoch(&self) -> (r: u64)
        ensures
            r == self.epoch(),
    {
        self.next_epoch
    }

    /// Takes the entry of a row out of the cache.
    fn take(&mut self, x: i64) -> (r: Option<LineEntry>)
        ensures
            final(self).next_epoch == old(self).next_epoch,
            final(self).row(x) is None,
            forall|y: i64| y != x ==> final(self).row(y) == old(self).row(y),
            match r {
                Some(e) => old(self).row(x) == Some(e@),
                None => old(self).row(x) is None,
            },
    {
        cache_pop(&mut self.entries, x)
    }

    /// Stores the entry of a row.
    fn store(&mut self, x: i64, e: LineEntry)
        ensures
            final(self).next_epoch == old(self).next_epoch,
            final(self).row(x) == Some(e@),
            forall|y: i64| y != x ==> final(self).row(y) == old(self).row(y),
    {
        cache_put(&mut self.entries, x, e);
    }

    /// Marks one row stale, as a cache invalidation does.
    pub fn make_stale(&mut self, x: i64)
        requires
            old(self).wf(),
        ensures
            final(self).wf(),
            final(self).epoch() == old(self).epoch(),
            final(self).row(x) == invalidated(old(self).row(x)),
            forall|y: i64| y != x ==> final(self).row(y) == old(self).row(y),
    {
        match self.take(x) {
            Some(LineEntry::Rendered(l)) => self.store(x, LineEntry::Stale(l)),
            Some(LineEntry::Dirty(l)) => self.store(x, LineEntry::Stale(l)),
            Some(LineEntry::Stale(l)) => self.store(x, LineEntry::Stale(l)),
            Some(e) => self.store(x, e),
            None => {},
        }
    }

    /// Marks every row stale that is not being fetched; replies to
    /// outstanding fetches still find their rows waiting.
    pub fn make_all_stale(&mut self)
        requires
            old(self).wf(),
        ensures
            final(self).wf(),
            final(self).epoch() == old(self).epoch(),
            forall|y: i64| #[trigger] final(self).row(y) == invalidated(old(self).row(y)),
    {
        let ghost first = *self;
        let mut done = cache_new();
        loop
            invariant
                self.next_epoch == first.next_epoch,
                first.wf(),
                forall|y: i64| #[trigger] self.row(y) is Some ==> self.row(y) == first.row(y),
                forall|y: i64| #![trigger first.row(y)] first.row(y) is Some ==> (self.row(y) is Some
                    <==> !cached_entries(done).contains_key(y)),
                forall|y: i64| #[trigger] cached_entries(done).contains_key(y) ==> invalidated(first.row(y))
                    == Some(cached_entries(done)[y]@),
                forall|y: i64| #[trigger] cached_entries(done).contains_key(y) ==> first.row(y) is Some,
            ensures
                forall|y: i64| #[trigger] self.row(y) is None,
            decreases cached_entries(self.entries).dom().len(),
        {
            let ghost before = cached_entries(self.entries);
            match cache_pop_lru(&mut self.entries) {
                Some((y, e)) => {
                    let n = match e {
                        LineEntry::Rendered(l) => LineEntry::Stale(l),
                        LineEntry::Dirty(l) => LineEntry::Stale(l),
                        LineEntry::Stale(l) => LineEntry::Stale(l),
                        other => other,
                    };
                    cache_put(&mut done, y, n);
                    assert(cached_entries(self.entries).dom() =~= before.dom().remove(y));
                },
                None => {
                    assert forall|y: i64| #[trigger] self.row(y) is None by {
                        assert(!before.dom().contains(y));
                    }
                    break;
                },
            }
        }
        self.entries = done;
        assert forall|y: i64| #[trigger] self.row(y) == invalidated(first.row(y)) by {
            if first.row(y) is Some {
            } else {
                assert(!cached_entries(done).contains_key(y));
            }
        }
    }


    /// Hands out the epoch of a new batch.
    fn begin_batch(&mut self) -> (r: u64)
        requires
            old(self).wf(),
            old(self).epoch() < u64::MAX,
        ensures
            final(self).wf(),
            r == old(self).epoch(),
            final(self).epoch() == old(self).epoch() + 1,
            forall|y: i64| #[trigger] final(self).row(y) == old(self).row(y),
    {
        let e = self.next_epoch;
        self.next_epoch = e + 1;
        proof {
            assert forall|y: i64| #[trigger] self.row(y) matches Some(s) ==> match epoch_of(s) {
                Some(f) => f < self.next_epoch,
                None => true,
            } by {
                assert(self.row(y) == old(self).row(y));
            }
        }
        e
    }

    /// Routes a row that a diff reports changed, and tells whether its
    /// state changed.
    fn route_row(&mut self, x: i64, fetchable: bool, epoch: u64) -> (r: bool)
        requires
            old(self).wf(),
            epoch < old(self).epoch(),
        ensures
            final(self).wf(),
            final(self).epoch() == old(self).epoch(),
            final(self).row(x) == routed(old(self).row(x), fetchable, epoch),
            forall|y: i64| y != x ==> final(self).row(y) == old(self).row(y),
            r == (final(self).row(x) != old(self).row(x)),
    {
        if fetchable {
            match self.take(x) {
                None => {
                    self.store(x, LineEntry::Fetching(epoch));
                    true
                },
                Some(LineEntry::Fetching(e)) => {
                    self.store(x, LineEntry::Fetching(epoch));
                    e != epoch
                },
                Some(LineEntry::Rendered(l)) => {
                    self.store(x, LineEntry::DirtyAndFetching(l, epoch));
                    true
                },
                Some(LineEntry::Dirty(l)) => {
                    self.store(x, LineEntry::DirtyAndFetching(l, epoch));
                    true
                },
                Some(LineEntry::DirtyAndFetching(l, e)) => {
                    self.store(x, LineEntry::DirtyAndFetching(l, epoch));
                    e != epoch
                },
                Some(LineEntry::Stale(l)) => {
                    self.store(x, LineEntry::DirtyAndFetching(l, epoch));
                    true
                },
            }
        } else {
            match self.take(x) {
                Some(LineEntry::Rendered(l)) => {
                    self.store(x, LineEntry::Stale(l));
                    true
                },
                Some(LineEntry::Dirty(l)) => {
                    self.store(x, LineEntry::Stale(l));
                    true
                },
                Some(LineEntry::DirtyAndFetching(l, _)) => {
                    self.store(x, LineEntry::Stale(l));
                    true
                },
                Some(e) => {
                    self.store(x, e);
                    false
                },
                None => false,
            }
        }
    }

    /// Takes content delivered directly with a diff.
    fn deliver_row(&mut self, x: i64, line: Line)
        requires
            old(self).wf(),
        ensures
            final(self).wf(),
            final(self).epoch() == old(self).epoch(),
            final(self).row(x) == Some(delivered(old(self).row(x), line@)),
            forall|y: i64| y != x ==> final(self).row(y) == old(self).row(y),
    {
        match self.take(x) {
            Some(LineEntry::Rendered(prior)) => {
                if prior.same_content(&line) {
                    self.store(x, LineEntry::Rendered(line));
                } else {
                    self.store(x, LineEntry::Dirty(line));
                }
            },
            _ => self.store(x, LineEntry::Dirty(line)),
        }
    }

    /// Takes the reply for one row of a fetch started at `epoch`.
    fn fetched_row(&mut self, x: i64, line: Line, epoch: u64)
        requires
            old(self).wf(),
        ensures
            final(self).wf(),
            final(self).epoch() == old(self).epoch(),
            final(self).row(x) == fetched(old(self).row(x), line@, epoch),
            forall|y: i64| y != x ==> final(self).row(y) == old(self).row(y),
    {
        match self.take(x) {
            Some(LineEntry::Fetching(e)) => {
                if e == epoch {
                    self.store(x, LineEntry::Dirty(line));
                } else {
                    self.store(x, LineEntry::Fetching(e));
                }
            },
            Some(LineEntry::DirtyAndFetching(l, e)) => {
                if e == epoch {
                    self.store(x, LineEntry::Dirty(line));
                } else {
                    self.store(x, LineEntry::DirtyAndFetching(l, e));
                }
            },
            Some(other) => self.store(x, other),
            None => {},
        }
    }

    /// Undoes, for one row, a fetch started at `epoch` that failed.
    fn failed_row(&mut self, x: i64, epoch: u64)
        requires
            old(self).wf(),
        ensures
            final(self).wf(),
            final(self).epoch() == old(self).epoch(),
            final(self).row(x) == fetch_failed(old(self).row(x), epoch),
            forall|y: i64| y != x ==> final(self).row(y) == old(self).row(y),
    {
        match self.take(x) {
            Some(LineEntry::Fetching(e)) => {
                if e != epoch {
                    self.store(x, LineEntry::Fetching(e));
                }
            },
            Some(LineEntry::DirtyAndFetching(l, e)) => {
                if e == epoch {
                    self.store(x, LineEntry::Dirty(l));
                } else {
                    self.store(x, LineEntry::DirtyAndFetching(l, e));
                }
            },
            Some(other) => self.store(x, other),
            None => {},
        }
    }

    /// Withdraws one row of a batch that may not be requested.
    fn refused_row(&mut self, x: i64)
        requires
            old(self).wf(),
        ensures
            final(self).wf(),
            final(self).epoch() == old(self).epoch(),
            final(self).row(x) == refused(old(self).row(x)),
            forall|y: i64| y != x ==> final(self).row(y) == old(self).row(y),
    {
        match self.take(x) {
            Some(LineEntry::Fetching(_)) => {},
            Some(LineEntry::DirtyAndFetching(l, _)) => self.store(x, LineEntry::Stale(l)),
            Some(other) => self.store(x, other),
            None => {},
        }
    }

    /// Reconciles the outcome of a fetch with the current rows. A reply
    /// changes only rows that still wait for this very fetch; a failure puts
    /// those rows back as they were before it.
    pub fn apply_lines(&mut self, batch: &FetchBatch, outcome: FetchOutcome)
        requires
            old(self).wf(),
        ensures
            final(self).wf(),
            final(self).epoch() == old(self).epoch(),
            match outcome {
                FetchOutcome::Lines(v) => forall|y: i64| #[trigger] final(self).row(y)
                    == replied(old(self).row(y), lines_view(v@), y, batch.epoch),
                FetchOutcome::Failed => forall|y: i64| #[trigger] final(self).row(y)
                    == if batch.rows@.contains(y) {
                        fetch_failed(old(self).row(y), batch.epoch)
                    } else {
                        old(self).row(y)
                    },
            },
    {
        match outcome {
            FetchOutcome::Lines(v) => {
                let ghost first = *self;
                let mut i: usize = 0;
                while i < v.len()
                    invariant
                        self.wf(),
                        self.next_epoch == first.next_epoch,
                        i <= v@.len(),
                        forall|y: i64| #[trigger] self.row(y)
                            == replied(first.row(y), lines_view(v@.take(i as int)), y, batch.epoch),
                    decreases v@.len() - i,
                {
                    let x = v[i].0;
                    let line = v[i].1.duplicate();
                    self.fetched_row(x, line, batch.epoch);
                    proof {
                        assert forall|y: i64| #[trigger] self.row(y)
                            == replied(first.row(y), lines_view(v@.take(i + 1)), y, batch.epoch) by {
                            assert(lines_view(v@.take(i + 1)).drop_last() =~= lines_view(v@.take(i as int)));
                        }
                    }
                    i = i + 1;
                }
                assert(v@.take(v@.len() as int) =~= v@);
            },
            FetchOutcome::Failed => {
                let ghost first = *self;
                let mut i: usize = 0;
                while i < batch.rows.len()
                    invariant
                        self.wf(),
                        self.next_epoch == first.next_epoch,
                        i <= batch.rows@.len(),
                        forall|y: i64| #[trigger] self.row(y)
                            == if batch.rows@.take(i as int).contains(y) {
                                fetch_failed(first.row(y), batch.epoch)
                            } else {
                                first.row(y)
                            },
                    decreases batch.rows@.len() - i,
                {
                    let x = batch.rows[i];
                    let ghost prev = *self;
                    self.failed_row(x, batch.epoch);
                    proof {
                        assert forall|y: i64| #[trigger] self.row(y)
                            == if batch.rows@.take(i + 1).contains(y) {
                                fetch_failed(first.row(y), batch.epoch)
                            } else {
                                first.row(y)
                            } by {
                            assert(batch.rows@.take(i + 1) =~= batch.rows@.take(i as int).push(x));
                            assert(batch.rows@.take(i as int).push(x).contains(y)
                                <==> (batch.rows@.take(i as int).contains(y) || y == x)) by {
                                if y == x {
                                    assert(batch.rows@.take(i as int).push(x)[i as int] == x);
                                }
                            }
                            assert(prev.row(y) == if batch.rows@.take(i as int).contains(y) {
                                fetch_failed(first.row(y), batch.epoch)
                            } else {
                                first.row(y)
                            });
                            fetch_failed_idempotent(first.row(y), batch.epoch);
                        }
                    }
                    i = i + 1;
                }
                assert(batch.rows@.take(batch.rows@.len() as int) =~= batch.rows@);
            },
        }
    }

    /// Withdraws a batch that the rate limiter did not admit: none of its
    /// rows stays marked as fetching.
    pub fn refuse_batch(&mut self, batch: &FetchBatch)
        requires
            old(self).wf(),
        ensures
            final(self).wf(),
            final(self).epoch() == old(self).epoch(),
            forall|y: i64| #[trigger] final(self).row(y)
                == if batch.rows@.contains(y) {
                    refused(old(self).row(y))
                } else {
                    old(self).row(y)
                },
    {
        let ghost first = *self;
        let mut i: usize = 0;
        while i < batch.rows.len()
            invariant
                self.wf(),
                self.next_epoch == first.next_epoch,
                i <= batch.rows@.len(),
                forall|y: i64| #[trigger] self.row(y)
                    == if batch.rows@.take(i as int).contains(y) {
                        refused(first.row(y))
                    } else {
                        first.row(y)
                    },
            decreases batch.rows@.len() - i,
        {
            let x = batch.rows[i];
            let ghost prev = *self;
            self.refused_row(x);
            proof {
                assert forall|y: i64| #[trigger] self.row(y)
                    == if batch.rows@.take(i + 1).contains(y) {
                        refused(first.row(y))
                    } else {
                        first.row(y)
                    } by {
                    assert(batch.rows@.take(i + 1) =~= batch.rows@.take(i as int).push(x));
                    assert(batch.rows@.take(i as int).push(x).contains(y)
                        <==> (batch.rows@.take(i as int).contains(y) || y == x)) by {
                        if y == x {
                            assert(batch.rows@.take(i as int).push(x)[i as int] == x);
                        }
                    }
                    assert(prev.row(y) == if batch.rows@.take(i as int).contains(y) {
                        refused(first.row(y))
                    } else {
                        first.row(y)
                    });
                    refused_idempotent(first.row(y));
                }
            }
            i = i + 1;
        }
        assert(batch.rows@.take(batch.rows@.len() as int) =~= batch.rows@);
    }


    /// The contents of rows `start..end` for display, best available first;
    /// a reversed range holds no rows.
    /// Rows with no content show blank, `cols` wide. Delivered content is no
    /// longer dirty. Stale and unknown rows are put in the returned batch, to
    /// be fetched, and marked as fetching at its epoch.
    pub fn get_lines(&mut self, start: StableRowIndex, end: StableRowIndex, cols: usize) -> (r: (
        Vec<Line>,
        FetchBatch,
    ))
        requires
            old(self).wf(),
            old(self).epoch() < u64::MAX,
        ensures
            final(self).wf(),
            final(self).epoch() == old(self).epoch() + 1,
            r.0@.len() == if start <= end {
                end - start
            } else {
                0
            },
            forall|i: int| 0 <= i < end - start ==> #[trigger] r.0@[i]@ == shown(
                old(self).row((start + i) as i64),
                cols as nat,
            ),
            forall|y: i64| #[trigger] final(self).row(y) == if start <= y < end {
                after_read(old(self).row(y), r.1.epoch)
            } else {
                old(self).row(y)
            },
            r.1.epoch == old(self).epoch(),
            r.1.rows@.no_duplicates(),
            forall|y: i64| #[trigger] r.1.rows@.contains(y) <==> (start <= y < end && read_fetches(
                old(self).row(y),
            )),
    {
        let epoch = self.begin_batch();
        let ghost first = *self;
        let mut out: Vec<Line> = Vec::new();
        let mut rows: Vec<StableRowIndex> = Vec::new();
        let mut x: i64 = start;
        while x < end
            invariant
                self.wf(),
                self.next_epoch == first.next_epoch,
                epoch < first.next_epoch,
                start <= x,
                x <= end || x == start,
                out@.len() == x - start,
                forall|i: int| 0 <= i < x - start ==> #[trigger] out@[i]@ == shown(
                    first.row((start + i) as i64),
                    cols as nat,
                ),
                forall|y: i64| #[trigger] self.row(y) == if start <= y < x {
                    after_read(first.row(y), epoch)
                } else {
                    first.row(y)
                },
                rows@.no_duplicates(),
                forall|y: i64| #[trigger] rows@.contains(y) <==> (start <= y < x && read_fetches(
                    first.row(y),
                )),
            decreases end - x,
        {
            let ghost prev = *self;
            let ghost prev_rows = rows@;
            assert(self.row(x) == first.row(x));
            match self.take(x) {
                Some(LineEntry::Rendered(l)) => {
                    out.push(l.duplicate());
                    self.store(x, LineEntry::Rendered(l));
                },
                Some(LineEntry::Dirty(l)) => {
                    out.push(l.duplicate());
                    self.store(x, LineEntry::Rendered(l));
                },
                Some(LineEntry::DirtyAndFetching(l, e)) => {
                    out.push(l.duplicate());
                    self.store(x, LineEntry::DirtyAndFetching(l, e));
                },
                Some(LineEntry::Fetching(e)) => {
                    out.push(Line::with_width(cols));
                    self.store(x, LineEntry::Fetching(e));
                },
                Some(LineEntry::Stale(l)) => {
                    out.push(l.duplicate());
                    rows.push(x);
                    self.store(x, LineEntry::DirtyAndFetching(l, epoch));
                },
                None => {
                    out.push(Line::with_width(cols));
                    rows.push(x);
                    self.store(x, LineEntry::Fetching(epoch));
                },
            }
            proof {
                if rows@.len() > prev_rows.len() {
                    push_fresh(prev_rows, x);
                }
                assert forall|y: i64| #[trigger] rows@.contains(y) <==> (start <= y < x + 1
                    && read_fetches(first.row(y))) by {
                    if rows@.len() > prev_rows.len() {
                        push_fresh(prev_rows, x);
                    }
                }
                assert forall|y: i64| #[trigger] self.row(y) == if start <= y < x + 1 {
                    after_read(first.row(y), epoch)
                } else {
                    first.row(y)
                } by {
                    assert(prev.row(y) == if start <= y < x {
                        after_read(first.row(y), epoch)
                    } else {
                        first.row(y)
                    });
                }
                assert forall|i: int| 0 <= i < x + 1 - start implies #[trigger] out@[i]@ == shown(
                    first.row((start + i) as i64),
                    cols as nat,
                ) by {
                    if i < x - start {
                    } else {
                        assert((start + i) as i64 == x);
                    }
                }
            }
            x = x + 1;
        }
        (out, FetchBatch { rows, epoch })
    }

    /// The rows of `start..end` whose current content the renderer has yet
    /// to be given: dirty ones, those waiting for newer content, and unknown
    /// ones, in ascending order.
    pub fn get_dirty_rows(&self, start: StableRowIndex, end: StableRowIndex) -> (r: Vec<StableRowIndex>)
        ensures
            r@.no_duplicates(),
            forall|i: int, j: int| 0 <= i < j < r@.len() ==> r@[i] < r@[j],
            forall|y: i64| #[trigger] r@.contains(y) <==> (start <= y < end && needs_render(self.row(y))),
    {
        let mut out: Vec<StableRowIndex> = Vec::new();
        if start >= end {
            return out;
        }
        let mut x: i64 = start;
        while x < end
            invariant
                start <= x <= end,
                out@.no_duplicates(),
                forall|i: int, j: int| 0 <= i < j < out@.len() ==> out@[i] < out@[j],
                forall|i: int| 0 <= i < out@.len() ==> out@[i] < x,
                forall|y: i64| #[trigger] out@.contains(y) <==> (start <= y < x && needs_render(self.row(y))),
            decreases end - x,
        {
            let ghost prev = out@;
            let dirty = match cache_peek(&self.entries, x) {
                None => true,
                Some(LineEntry::Dirty(_)) => true,
                Some(LineEntry::DirtyAndFetching(_, _)) => true,
                Some(_) => false,
            };
            if dirty {
                out.push(x);
            }
            proof {
                if dirty {
                    push_fresh(prev, x);
                }
                assert forall|y: i64| #[trigger] out@.contains(y) <==> (start <= y < x + 1
                    && needs_render(self.row(y))) by {
                    if dirty {
                        assert(out@ == prev.push(x));
                    }
                }
            }
            x = x + 1;
        }
        out
    }


    /// Routes row `x` of a diff unless its content came with the diff, and
    /// adds it to the batch if it is to be fetched. Tells whether the row's
    /// state changed.
    fn route_reported(
        &mut self,
        x: StableRowIndex,
        top: StableRowIndex,
        epoch: u64,
        bonus: &Vec<(StableRowIndex, Line)>,
        batch: &mut Vec<StableRowIndex>,
    ) -> (r: bool)
        requires
            old(self).wf(),
            epoch < old(self).epoch(),
            old(batch)@.no_duplicates(),
        ensures
            final(self).wf(),
            final(self).epoch() == old(self).epoch(),
            final(self).row(x) == if !in_bonus(lines_view(bonus@), x) {
                routed(old(self).row(x), x >= top, epoch)
            } else {
                old(self).row(x)
            },
            forall|y: i64| y != x ==> final(self).row(y) == old(self).row(y),
            r == (final(self).row(x) != old(self).row(x)),
            final(batch)@.no_duplicates(),
            forall|y: i64| #[trigger] final(batch)@.contains(y) <==> (old(batch)@.contains(y) || (y == x
                && !in_bonus(lines_view(bonus@), x) && x >= top)),
    {
        if bonus_has(bonus, x) {
            return false;
        }
        let changed = self.route_row(x, x >= top, epoch);
        if x >= top && !holds_row(batch, x) {
            proof {
                push_fresh(batch@, x);
            }
            batch.push(x);
        }
        changed
    }

    /// A copy of row `x`'s entry, if the cache knows the row.
    fn entry_copy(&self, x: StableRowIndex) -> (r: Option<LineEntry>)
        ensures
            entry_state(r) == self.row(x),
    {
        match cache_peek(&self.entries, x) {
            Some(e) => Some(e.duplicate()),
            None => None,
        }
    }

    /// Whether row `x` stands in the state that `e` stands for.
    fn row_matches(&self, x: StableRowIndex, e: &Option<LineEntry>) -> (r: bool)
        ensures
            r == (self.row(x) == entry_state(*e)),
    {
        match (cache_peek(&self.entries, x), e) {
            (Some(a), Some(b)) => a.same_state(b),
            (None, None) => true,
            _ => false,
        }
    }

    /// Applies the row part of a diff: contents delivered with it are taken
    /// in order; every other row in a dirty range, and the rows that the
    /// cursor moved from and to (`moved`), are fetched if at or below `top`
    /// and marked stale otherwise. Returns whether any row's state changed,
    /// and the batch of rows to fetch; exactly the rows of the batch wait
    /// for its epoch.
    pub fn apply_diff_rows(
        &mut self,
        ranges: &Vec<(StableRowIndex, StableRowIndex)>,
        bonus: &Vec<(StableRowIndex, Line)>,
        moved: Option<(StableRowIndex, StableRowIndex)>,
        top: StableRowIndex,
    ) -> (r: (bool, FetchBatch))
        requires
            old(self).wf(),
            old(self).epoch() < u64::MAX,
        ensures
            final(self).wf(),
            final(self).epoch() == old(self).epoch() + 1,
            r.1.epoch == old(self).epoch(),
            forall|y: i64| #[trigger] final(self).row(y) == after_diff(
                old(self).row(y),
                ranges@,
                lines_view(bonus@),
                moved,
                top,
                r.1.epoch,
                y,
            ),
            r.1.rows@.no_duplicates(),
            forall|y: i64| #[trigger] r.1.rows@.contains(y) <==> (reported(
                ranges@,
                lines_view(bonus@),
                moved,
                y,
            ) && y >= top),
            forall|y: i64| #[trigger] waits_for(final(self).row(y), r.1.epoch) <==> r.1.rows@.contains(y),
            r.0 <==> exists|y: i64| final(self).row(y) != old(self).row(y),
    {
        let epoch = self.begin_batch();
        let ghost first = *self;
        let ghost bv = lines_view(bonus@);
        let mut priors: Vec<Option<LineEntry>> = Vec::new();
        let mut j: usize = 0;
        while j < bonus.len()
            invariant
                *self == first,
                j <= bonus@.len(),
                priors@.len() == j,
                forall|k: int| 0 <= k < j ==> entry_state(#[trigger] priors@[k]) == first.row(bonus@[k].0),
            decreases bonus@.len() - j,
        {
            priors.push(self.entry_copy(bonus[j].0));
            j = j + 1;
        }
        j = 0;
        while j < bonus.len()
            invariant
                self.wf(),
                self.next_epoch == first.next_epoch,
                j <= bonus@.len(),
                bv == lines_view(bonus@),
                forall|y: i64| #[trigger] self.row(y) == bonus_state(first.row(y), lines_view(bonus@.take(j as int)), y),
            decreases bonus@.len() - j,
        {
            let x = bonus[j].0;
            let line = bonus[j].1.duplicate();
            self.deliver_row(x, line);
            assert(lines_view(bonus@.take(j + 1)).drop_last() =~= lines_view(bonus@.take(j as int)));
            j = j + 1;
        }
        assert(bonus@.take(bonus@.len() as int) =~= bonus@);
        let ghost mid = *self;
        proof {
            assert forall|y: i64| #[trigger] mid.row(y) == if in_bonus(bv, y) {
                bonus_state(first.row(y), bv, y)
            } else {
                first.row(y)
            } by {
                if !in_bonus(bv, y) {
                    bonus_state_outside(first.row(y), bv, y);
                }
            }
        }
        let mut delivered_changed = false;
        let mut k: usize = 0;
        while k < bonus.len()
            invariant
                *self == mid,
                k <= bonus@.len(),
                priors@.len() == bonus@.len(),
                forall|m: int| 0 <= m < bonus@.len() ==> entry_state(#[trigger] priors@[m]) == first.row(bonus@[m].0),
                delivered_changed <==> exists|m: int| 0 <= m < k && mid.row((#[trigger] bonus@[m]).0) != first.row(
                    bonus@[m].0,
                ),
            decreases bonus@.len() - k,
        {
            if !self.row_matches(bonus[k].0, &priors[k]) {
                delivered_changed = true;
                assert(mid.row(bonus@[k as int].0) != first.row(bonus@[k as int].0));
            }
            k = k + 1;
        }
        proof {
            if exists|y: i64| mid.row(y) != first.row(y) {
                let y = choose|y: i64| mid.row(y) != first.row(y);
                assert(in_bonus(bv, y));
                in_bonus_index(bv, y);
                let m = choose|m: int| 0 <= m < bv.len() && (#[trigger] bv[m]).0 == y;
                assert(bv[m].0 == bonus@[m].0);
            }
        }
        let mut rows: Vec<StableRowIndex> = Vec::new();
        let mut any = false;
        let mut i: usize = 0;
        while i < ranges.len()
            invariant
                self.wf(),
                self.next_epoch == first.next_epoch,
                epoch < first.next_epoch,
                i <= ranges@.len(),
                bv == lines_view(bonus@),
                forall|y: i64| #[trigger] mid.row(y) == if in_bonus(bv, y) {
                    bonus_state(first.row(y), bv, y)
                } else {
                    first.row(y)
                },
                forall|y: i64| #[trigger] self.row(y) == if in_ranges(ranges@.take(i as int), y) && !in_bonus(bv, y) {
                    routed(first.row(y), y >= top, epoch)
                } else {
                    mid.row(y)
                },
                forall|y: i64| #[trigger] self.row(y) == mid.row(y) || self.row(y) == routed(mid.row(y), y >= top, epoch),
                rows@.no_duplicates(),
                forall|y: i64| #[trigger] rows@.contains(y) <==> (in_ranges(ranges@.take(i as int), y)
                    && !in_bonus(bv, y) && y >= top),
                any <==> exists|y: i64| self.row(y) != mid.row(y),
            decreases ranges@.len() - i,
        {
            let (lo, hi) = ranges[i];
            assert(ranges@.take(i + 1).drop_last() =~= ranges@.take(i as int));
            let ghost before = *self;
            let ghost before_rows = rows@;
            let mut x: i64 = lo;
            while x < hi
                invariant
                    self.wf(),
                    self.next_epoch == first.next_epoch,
                    epoch < first.next_epoch,
                    lo <= x,
                    x <= hi || x == lo,
                    ranges@[i as int] == (lo, hi),
                    i < ranges@.len(),
                    bv == lines_view(bonus@),
                    forall|y: i64| #[trigger] self.row(y) == if lo <= y < x && !in_bonus(bv, y) {
                        routed(before.row(y), y >= top, epoch)
                    } else {
                        before.row(y)
                    },
                    forall|y: i64| #[trigger] self.row(y) == mid.row(y) || self.row(y) == routed(mid.row(y), y >= top, epoch),
                    rows@.no_duplicates(),
                    forall|y: i64| #[trigger] rows@.contains(y) <==> (before_rows.contains(y) || (lo <= y < x
                        && !in_bonus(bv, y) && y >= top)),
                    any <==> exists|y: i64| self.row(y) != mid.row(y),
                decreases hi - x,
            {
                let ghost prev = *self;
                let changed_here = self.route_reported(x, top, epoch, bonus, &mut rows);
                if changed_here {
                    any = true;
                }
                proof {
                    reroute_changes(mid, prev, *self, x, changed_here, top, epoch);
                    assert forall|y: i64| #[trigger] self.row(y) == if lo <= y < x + 1 && !in_bonus(bv, y) {
                        routed(before.row(y), y >= top, epoch)
                    } else {
                        before.row(y)
                    } by {
                        assert(prev.row(y) == if lo <= y < x && !in_bonus(bv, y) {
                            routed(before.row(y), y >= top, epoch)
                        } else {
                            before.row(y)
                        });
                    }
                }
                x = x + 1;
            }
            proof {
                assert forall|y: i64| #[trigger] self.row(y) == if in_ranges(ranges@.take(i + 1), y)
                    && !in_bonus(bv, y) {
                    routed(first.row(y), y >= top, epoch)
                } else {
                    mid.row(y)
                } by {
                    assert(before.row(y) == if in_ranges(ranges@.take(i as int), y) && !in_bonus(bv, y) {
                        routed(first.row(y), y >= top, epoch)
                    } else {
                        mid.row(y)
                    });
                    assert(mid.row(y) == if in_bonus(bv, y) {
                        bonus_state(first.row(y), bv, y)
                    } else {
                        first.row(y)
                    });
                    routed_idempotent(first.row(y), y >= top, epoch);
                }
            }
            i = i + 1;
        }
        assert(ranges@.take(ranges@.len() as int) =~= ranges@);
        let ghost after_ranges = *self;
        match moved {
            Some((a, c)) => {
                let ra = self.route_reported(a, top, epoch, bonus, &mut rows);
                let ghost after_a = *self;
                proof {
                    reroute_changes(mid, after_ranges, after_a, a, ra, top, epoch);
                }
                let rc = self.route_reported(c, top, epoch, bonus, &mut rows);
                proof {
                    reroute_changes(mid, after_a, *self, c, rc, top, epoch);
                }
                if ra || rc {
                    any = true;
                }
                proof {
                    assert forall|y: i64| #[trigger] self.row(y) == after_diff(
                        first.row(y),
                        ranges@,
                        bv,
                        moved,
                        top,
                        epoch,
                        y,
                    ) by {
                        assert(mid.row(y) == if in_bonus(bv, y) {
                            bonus_state(first.row(y), bv, y)
                        } else {
                            first.row(y)
                        });
                        assert(after_ranges.row(y) == if in_ranges(ranges@, y) && !in_bonus(bv, y) {
                            routed(first.row(y), y >= top, epoch)
                        } else {
                            mid.row(y)
                        });
                        routed_idempotent(first.row(y), y >= top, epoch);
                        if y == a {
                        }
                    }
                }
            },
            None => {
                proof {
                    assert forall|y: i64| #[trigger] self.row(y) == after_diff(
                        first.row(y),
                        ranges@,
                        bv,
                        moved,
                        top,
                        epoch,
                        y,
                    ) by {
                        assert(mid.row(y) == if in_bonus(bv, y) {
                            bonus_state(first.row(y), bv, y)
                        } else {
                            first.row(y)
                        });
                    }
                }
            },
        }
        proof {
            assert forall|y: i64| #[trigger] self.row(y) != mid.row(y) implies !in_bonus(bv, y) && mid.row(y)
                == first.row(y) by {
                assert(mid.row(y) == if in_bonus(bv, y) {
                    bonus_state(first.row(y), bv, y)
                } else {
                    first.row(y)
                });
            }
            if exists|y: i64| self.row(y) != first.row(y) {
                let y = choose|y: i64| self.row(y) != first.row(y);
                if self.row(y) == mid.row(y) {
                    assert(mid.row(y) != first.row(y));
                } else {
                    assert(self.row(y) != mid.row(y));
                }
            }
            if any {
                let y = choose|y: i64| self.row(y) != mid.row(y);
                assert(self.row(y) != first.row(y));
            }
            if delivered_changed {
                let y = choose|y: i64| mid.row(y) != first.row(y);
                if self.row(y) != mid.row(y) {
                    assert(mid.row(y) == first.row(y));
                }
                assert(self.row(y) != first.row(y));
            }
            assert forall|y: i64| #[trigger] waits_for(self.row(y), epoch) <==> rows@.contains(y) by {
                assert(old(self).row(y) == first.row(y));
                assert(old(self).row(y) matches Some(s) ==> match epoch_of(s) {
                    Some(f) => f < epoch,
                    None => true,
                });
                assert(self.row(y) == after_diff(first.row(y), ranges@, bv, moved, top, epoch, y));
                if in_bonus(bv, y) {
                    bonus_state_delivered(first.row(y), bv, y);
                }
            }
        }
        let changed = any || delivered_changed;
        (changed, FetchBatch { rows, epoch })
    }


    /// The name of row `x`'s state and the epoch of its fetch, if the cache
    /// knows the row.
    pub fn row_kind(&self, x: StableRowIndex) -> (r: Option<(RowKind, Option<u64>)>)
        ensures
            r == match self.row(x) {
                Some(s) => Some(kind_of(s)),
                None => None,
            },
    {
        match cache_peek(&self.entries, x) {
            Some(e) => Some(e.kind()),
            None => None,
        }
    }

    /// The content that row `x` keeps, if any.
    pub fn row_content(&self, x: StableRowIndex) -> (r: Option<Line>)
        ensures
            match r {
                Some(l) => content_of(self.row(x)) == Some(l@),
                None => content_of(self.row(x)) is None,
            },
    {
        match cache_peek(&self.entries, x) {
            Some(LineEntry::Rendered(l)) => Some(l.duplicate()),
            Some(LineEntry::Dirty(l)) => Some(l.duplicate()),
            Some(LineEntry::DirtyAndFetching(l, _)) => Some(l.duplicate()),
            Some(LineEntry::Stale(l)) => Some(l.duplicate()),
            _ => None,
        }
    }
}

} // verus!
