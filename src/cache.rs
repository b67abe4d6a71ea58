//! The discovery cache: the last snapshot of exposable containers, with a
//! staleness flag raised by lifecycle events. The runtime is queried only when
//! the cache holds no snapshot or has been marked stale.
use vstd::prelude::*;

use crate::container::{duplicate_all, ContainerInfo, ContainerView};

verus! {

/// Why a refresh of the cache failed: the runtime could not be queried.
#[derive(Debug, PartialEq, Eq)]
pub struct RuntimeQueryError {
    pub message: String,
}

/// The three states a cache moves between.
#[derive(Debug, Clone, Copy, PartialEq, Eq, Structural)]
pub enum CachePhase {
    /// No snapshot is held; the next read refreshes.
    Empty,
    /// A snapshot is held and no event has come since it was taken.
    Fresh,
    /// A snapshot is held but an event has come since; the next read refreshes.
    Stale,
}

/// Mathematical model of a [`DiscoveryCache`].
pub struct CacheView {
    pub snapshot: Option<Seq<ContainerView>>,
    pub stale: bool,
}

/// The state a cache with this model is in.
pub open spec fn phase_of(v: CacheView) -> CachePhase {
    match v.snapshot {
        None => CachePhase::Empty,
        Some(_) => if v.stale {
            CachePhase::Stale
        } else {
            CachePhase::Fresh
        },
    }
}

/// The cache after an event marked it stale.
pub open spec fn marked(v: CacheView) -> CacheView {
    CacheView { snapshot: v.snapshot, stale: true }
}

/// The cache after `n` events marked it stale, with no read between them.
pub open spec fn marked_times(v: CacheView, n: nat) -> CacheView
    decreases n,
{
    if n == 0 {
        v
    } else {
        marked(marked_times(v, (n - 1) as nat))
    }
}

/// The cache after a read looked at it: a stale snapshot is dropped.
pub open spec fn after_read(v: CacheView) -> CacheView {
    if v.stale {
        CacheView { snapshot: None, stale: true }
    } else {
        v
    }
}

/// What a read serves without querying the runtime; `None` when a refresh is
/// owed first.
pub open spec fn served(v: CacheView) -> Option<Seq<ContainerView>> {
    after_read(v).snapshot
}

/// The cache after a refresh that obtained `list`.
pub open spec fn refreshed(list: Seq<ContainerView>) -> CacheView {
    CacheView { snapshot: Some(list), stale: false }
}

/// The cache after a refresh that failed: nothing is kept, the flag is left.
pub open spec fn refresh_failed(v: CacheView) -> CacheView {
    CacheView { snapshot: None, stale: v.stale }
}

/// Holds the last snapshot of exposable containers and whether an event has
/// made it stale. The owner serialises all access to it, so at most one
/// refresh is ever in flight.
#[derive(Debug)]
pub struct DiscoveryCache {
    snapshot: Option<Vec<ContainerInfo>>,
    stale: bool,
}

impl View for DiscoveryCache {
    type V = CacheView;

    closed spec fn view(&self) -> CacheView {
        CacheView { snapshot: self.snapshot.deep_view(), stale: self.stale }
    }
}

impl DiscoveryCache {
    /// An empty cache: the first read refreshes.
    pub fn new() -> (r: Self)
        ensures
            r@ == (CacheView { snapshot: None, stale: false }),
            phase_of(r@) == CachePhase::Empty,
    {
        DiscoveryCache { snapshot: None, stale: false }
    }

    /// Records that the container set may have changed.
    pub fn mark_dirty(&mut self)
        ensures
            final(self)@ == marked(old(self)@),
    {
        self.stale = true;
    }

    /// Which of its three states the cache is in.
    pub fn phase(&self) -> (r: CachePhase)
        ensures
            r == phase_of(self@),
    {
        match &self.snapshot {
            None => CachePhase::Empty,
            Some(_) => if self.stale {
                CachePhase::Stale
            } else {
                CachePhase::Fresh
            },
        }
    }

    /// Whether the next read has to query the runtime.
    pub fn needs_refresh(&self) -> (r: bool)
        ensures
            r == (served(self@) is None),
    {
        self.stale || self.snapshot.is_none()
    }

    /// Serves the cached snapshot when it is present and not stale. Otherwise
    /// drops whatever is held and returns `None`: the caller must query the
    /// runtime and hand the outcome to [`DiscoveryCache::complete_refresh`].
    pub fn cached(&mut self) -> (r: Option<Vec<ContainerInfo>>)
        ensures
            final(self)@ == after_read(old(self)@),
            r.deep_view() == served(old(self)@),
    {
        if self.stale {
            self.snapshot = None;
        }
        match &self.snapshot {
            Some(list) => Some(duplicate_all(list)),
            None => None,
        }
    }

    /// Takes the outcome of a runtime query. On success the list becomes the
    /// snapshot, the cache is fresh, and a copy of the list is returned. On
    /// failure nothing is kept and the error is handed back, so the next read
    /// queries again.
    pub fn complete_refresh(&mut self, result: Result<Vec<ContainerInfo>, RuntimeQueryError>) -> (r:
        Result<Vec<ContainerInfo>, RuntimeQueryError>)
        ensures
            match result {
                Ok(list) => {
                    &&& final(self)@ == refreshed(list.deep_view())
                    &&& r matches Ok(out) && out.deep_view() == list.deep_view()
                },
                Err(e) => {
                    &&& final(self)@ == refresh_failed(old(self)@)
                    &&& r == Err::<Vec<ContainerInfo>, RuntimeQueryError>(e)
                },
            },
    {
        match result {
            Ok(list) => {
                let out = duplicate_all(&list);
                self.snapshot = Some(list);
                self.stale = false;
                Ok(out)
            },
            Err(e) => {
                self.snapshot = None;
                Err(e)
            },
        }
    }
}

/// Marking the cache stale any number of times before a read has the effect
/// of marking it once: that read owes exactly one refresh, and once it has
/// succeeded the following read is served from the cache.
pub proof fn lemma_marks_coalesce(v: CacheView, n: nat, list: Seq<ContainerView>)
    requires
        n >= 1,
    ensures
        marked_times(v, n) == marked(v),
        served(marked_times(v, n)) is None,
        served(refreshed(list)) == Some(list),
        after_read(refreshed(list)) == refreshed(list),
    decreases n,
{
    if n > 1 {
        lemma_marks_coalesce(v, (n - 1) as nat, list);
    } else {
        assert(marked_times(v, 0) == v);
    }
}

/// A failed refresh leaves the cache empty: the next read queries the runtime
/// again rather than serving what was held before.
pub proof fn lemma_failed_refresh_empties(v: CacheView)
    ensures
        phase_of(refresh_failed(v)) == CachePhase::Empty,
        served(refresh_failed(v)) is None,
{
}

} // verus!
