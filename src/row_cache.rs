use vstd::prelude::*;
use crate::line::Line;

verus! {

/// Where a cached row stands with respect to the remote endpoint.
pub enum LineEntry {
    /// Up to date, and delivered to the renderer at least once.
    Rendered(Line),
    /// Up to date, not yet delivered since it last changed.
    Dirty(Line),
    /// No local content; a fetch started at this epoch is outstanding.
    Fetching(u64),
    /// Older content kept for display while a fetch started at this epoch is outstanding.
    DirtyAndFetching(Line, u64),
    /// Known to be outdated and not being fetched.
    Stale(Line),
}

/// The mathematical value of a `LineEntry`.
pub enum RowState {
    Rendered(Seq<char>),
    Dirty(Seq<char>),
    Fetching(u64),
    DirtyAndFetching(Seq<char>, u64),
    Stale(Seq<char>),
}

impl View for LineEntry {
    type V = RowState;

    open spec fn view(&self) -> RowState {
        match self {
            LineEntry::Rendered(l) => RowState::Rendered(l@),
            LineEntry::Dirty(l) => RowState::Dirty(l@),
            LineEntry::Fetching(e) => RowState::Fetching(*e),
            LineEntry::DirtyAndFetching(l, e) => RowState::DirtyAndFetching(l@, *e),
            LineEntry::Stale(l) => RowState::Stale(l@),
        }
    }
}

/// The name of a row state.
#[derive(Clone, Copy, PartialEq, Eq, Structural, Debug)]
pub enum RowKind {
    Rendered,
    Dirty,
    Fetching,
    DirtyAndFetching,
    Stale,
}

/// The name of a state and the epoch of its fetch, if any.
pub open spec fn kind_of(s: RowState) -> (RowKind, Option<u64>) {
    match s {
        RowState::Rendered(_) => (RowKind::Rendered, None),
        RowState::Dirty(_) => (RowKind::Dirty, None),
        RowState::Fetching(e) => (RowKind::Fetching, Some(e)),
        RowState::DirtyAndFetching(_, e) => (RowKind::DirtyAndFetching, Some(e)),
        RowState::Stale(_) => (RowKind::Stale, None),
    }
}

impl LineEntry {
    /// The name of this state and the epoch of its fetch, if any.
    pub fn kind(&self) -> (r: (RowKind, Option<u64>))
        ensures
            r == kind_of(self@),
    {
        match self {
            LineEntry::Rendered(_) => (RowKind::Rendered, None),
            LineEntry::Dirty(_) => (RowKind::Dirty, None),
            LineEntry::Fetching(e) => (RowKind::Fetching, Some(*e)),
            LineEntry::DirtyAndFetching(_, e) => (RowKind::DirtyAndFetching, Some(*e)),
            LineEntry::Stale(_) => (RowKind::Stale, None),
        }
    }

    /// A copy of this entry.
    pub fn duplicate(&self) -> (r: LineEntry)
        ensures
            r@ == self@,
    {
        match self {
            LineEntry::Rendered(l) => LineEntry::Rendered(l.duplicate()),
            LineEntry::Dirty(l) => LineEntry::Dirty(l.duplicate()),
            LineEntry::Fetching(e) => LineEntry::Fetching(*e),
            LineEntry::DirtyAndFetching(l, e) => LineEntry::DirtyAndFetching(l.duplicate(), *e),
            LineEntry::Stale(l) => LineEntry::Stale(l.duplicate()),
        }
    }

    /// Whether two entries stand for the same state.
    pub fn same_state(&self, other: &LineEntry) -> (r: bool)
        ensures
            r == (self@ == other@),
    {
        match (self, other) {
            (LineEntry::Rendered(a), LineEntry::Rendered(b)) => a.same_content(b),
            (LineEntry::Dirty(a), LineEntry::Dirty(b)) => a.same_content(b),
            (LineEntry::Fetching(a), LineEntry::Fetching(b)) => *a == *b,
            (LineEntry::DirtyAndFetching(a, e), LineEntry::DirtyAndFetching(b, f)) => *e == *f && a.same_content(b),
            (LineEntry::Stale(a), LineEntry::Stale(b)) => a.same_content(b),
            _ => false,
        }
    }
}

/// lru::LruCache, opaque: what it holds is named by `cached_entries`.
#[verifier::external_type_specification]
#[verifier::external_body]
#[verifier::reject_recursive_types(K)]
#[verifier::reject_recursive_types(V)]
#[verifier::reject_recursive_types(S)]
pub struct ExLruCache<K, V, S>(lru::LruCache<K, V, S>);

/// lru::DefaultHasher, the hash builder of an `LruCache`, opaque.
#[verifier::external_type_specification]
#[verifier::external_body]
pub struct ExLruHasher(lru::DefaultHasher);

/// An LRU cache of rows keyed by stable row index.
pub type RowLru = lru::LruCache<i64, LineEntry>;

/// The entries that an LRU cache of rows holds, by stable row index.
pub uninterp spec fn cached_entries(c: RowLru) -> Map<i64, LineEntry>;

/// Relies on lru::LruCache::unbounded: a new cache holds nothing.
#[verifier::external_body]
pub(crate) fn cache_new() -> (r: RowLru)
    ensures
        cached_entries(r).dom() == Set::<i64>::empty(),
{
    lru::LruCache::unbounded()
}

/// Relies on lru::LruCache::put on an unbounded cache: the key is inserted or
/// its value replaced. Eviction happens only at capacity, `usize::MAX` entries,
/// each a separate heap node, which no address space holds.
#[verifier::external_body]
pub(crate) fn cache_put(c: &mut RowLru, k: i64, v: LineEntry)
    ensures
        cached_entries(*final(c)) == cached_entries(*old(c)).insert(k, v),
{
    c.put(k, v);
}

/// Relies on lru::LruCache::pop: removes the key and hands back its value.
#[verifier::external_body]
pub(crate) fn cache_pop(c: &mut RowLru, k: i64) -> (r: Option<LineEntry>)
    ensures
        cached_entries(*final(c)) == cached_entries(*old(c)).remove(k),
        r == (if cached_entries(*old(c)).contains_key(k) {
            Some(cached_entries(*old(c))[k])
        } else {
            None
        }),
{
    c.pop(&k)
}

/// Relies on lru::LruCache::pop_lru: removes some entry and hands it back,
/// or `None` when the cache is empty.
#[verifier::external_body]
pub(crate) fn cache_pop_lru(c: &mut RowLru) -> (r: Option<(i64, LineEntry)>)
    ensures
        match r {
            None => cached_entries(*old(c)).dom().finite() && cached_entries(*old(c)).dom() == Set::<i64>::empty()
                && cached_entries(*final(c)) == cached_entries(*old(c)),
            Some((k, v)) => cached_entries(*old(c)).dom().finite() && cached_entries(*old(c)).contains_key(k)
                && cached_entries(*old(c))[k] == v
                && cached_entries(*final(c)) == cached_entries(*old(c)).remove(k),
        },
{
    c.pop_lru()
}

/// Relies on lru::LruCache::peek: the value of the key, if present, without
/// changing anything.
#[verifier::external_body]
pub(crate) fn cache_peek(c: &RowLru, k: i64) -> (r: Option<&LineEntry>)
    ensures
        match r {
            Some(e) => cached_entries(*c).contains_key(k) && cached_entries(*c)[k] == *e,
            None => !cached_entries(*c).contains_key(k),
        },
{
    c.peek(&k)
}

} // verus!
