//! Pictures of windows, and the cache that holds one per window.
//!
//! The pixels themselves stay with whoever captured them: a picture is named by a handle, and what
//! the rules read of it is its size, its route, its hairline and its age.
use vstd::prelude::*;

use crate::fit::{alike, fits_extent, fits_frame, fitting, replaces, should_replace, Coverage};
use crate::geometry::Size;
use crate::ids::WindowId;
use crate::keyed::{find, first_at, first_at_finds, first_at_is, listed, one_each, Keyed};

verus! {

/// A window's pixels, whichever route produced them, by handle.
#[derive(Clone, Copy, PartialEq, Eq, Structural, Debug)]
pub enum SnapshotImage {
    /// A bitmap in memory, whose rendering can be compared.
    Bitmap(u64),
    /// A surface held by the graphics system.
    Surface(u64),
}

/// The route a picture came by.
#[derive(Clone, Copy, PartialEq, Eq, Structural, Debug)]
pub enum SnapshotSource {
    /// Captured fresh from the framebuffer. Only valid for a fully visible window.
    SkyLight,
    /// Captured from the window's own surface. Valid at any visibility, but expensive.
    ScreenCaptureKit,
}

/// A window's pixels, plus how much of the window they cover.
#[derive(Clone, Copy, PartialEq, Eq, Debug)]
pub struct WindowSnapshot {
    pub image: SnapshotImage,
    pub coverage: Coverage,
    pub source: SnapshotSource,
    /// The hairline this window wore when last seen composited, by handle; carried across cache
    /// refreshes.
    pub dressing: Option<u64>,
    /// When the pixels were captured; staleness is a reason to capture again.
    pub taken: u64,
}

impl WindowSnapshot {
    /// The picture can be drawn at `size` without visible distortion.
    pub open spec fn suits(self, size: Size) -> bool {
        fitting(self.coverage.covered, (size.width, size.height))
    }

    pub fn is_usable(&self) -> (r: bool)
        ensures
            r == self.coverage.usable(),
    {
        self.coverage.is_usable()
    }

    /// Can this picture be drawn at `size` without visibly distorting it?
    pub fn fits(&self, size: Size) -> (r: bool)
        ensures
            r == self.suits(size),
    {
        fits_frame(self.coverage.covered, (size.width, size.height))
    }

    /// Can this picture be drawn over what another one covers without visible distortion?
    pub fn fits_like(&self, other: &WindowSnapshot) -> (r: bool)
        ensures
            r == alike(self.coverage.covered, other.coverage.covered),
    {
        fits_extent(self.coverage.covered, other.coverage.covered)
    }
}

/// The hairline a window keeps: the fresher one where there is one.
pub open spec fn kept_dressing(previous: Option<u64>, fresh: Option<u64>) -> Option<u64> {
    if fresh is Some {
        fresh
    } else {
        previous
    }
}

/// The hairline a window keeps once a capture that carried `fresh` was offered.
pub fn dressing_after_insert(previous: Option<u64>, fresh: Option<u64>) -> (r: Option<u64>)
    ensures
        r == kept_dressing(previous, fresh),
{
    if fresh.is_some() {
        fresh
    } else {
        previous
    }
}

/// Anything the cache can hold and judge.
pub trait HasCoverage {
    spec fn covers(&self) -> Coverage;

    fn coverage(&self) -> (r: Coverage)
        ensures
            r == self.covers(),
    ;
}

/// State a cached picture keeps alive across captures, independently of which pixels win. The
/// hairline comes from the screen composite, not the capture buffer, so it replaces on its own.
pub trait CarriesOver: Sized {
    /// What an incoming picture becomes when it replaces `previous`.
    spec fn inherited(&self, previous: Self) -> Self;

    /// What a kept picture becomes when `refused` lost to it.
    spec fn absorbed(&self, refused: Self) -> Self;

    fn inherit(&mut self, previous: &Self)
        ensures
            *final(self) == old(self).inherited(*previous),
    ;

    fn absorb(&mut self, refused: Self)
        ensures
            *final(self) == old(self).absorbed(refused),
    ;
}

impl HasCoverage for WindowSnapshot {
    open spec fn covers(&self) -> Coverage {
        self.coverage
    }

    fn coverage(&self) -> (r: Coverage) {
        self.coverage
    }
}

impl CarriesOver for WindowSnapshot {
    open spec fn inherited(&self, previous: Self) -> Self {
        WindowSnapshot { dressing: kept_dressing(previous.dressing, self.dressing), ..*self }
    }

    open spec fn absorbed(&self, refused: Self) -> Self {
        WindowSnapshot { dressing: kept_dressing(self.dressing, refused.dressing), ..*self }
    }

    fn inherit(&mut self, previous: &Self) {
        self.dressing = dressing_after_insert(previous.dressing, self.dressing);
    }

    fn absorb(&mut self, refused: Self) {
        self.dressing = dressing_after_insert(self.dressing, refused.dressing);
    }
}

impl HasCoverage for Coverage {
    open spec fn covers(&self) -> Coverage {
        *self
    }

    fn coverage(&self) -> (r: Coverage) {
        *self
    }
}

/// Sizes alone carry nothing over.
impl CarriesOver for Coverage {
    open spec fn inherited(&self, previous: Self) -> Self {
        *self
    }

    open spec fn absorbed(&self, refused: Self) -> Self {
        *self
    }

    fn inherit(&mut self, previous: &Self) {
    }

    fn absorb(&mut self, refused: Self) {
    }
}

/// What a window's entry is once `incoming` was offered to it.
pub open spec fn after_insert<T: HasCoverage + CarriesOver>(held: Option<T>, incoming: T) -> T {
    match held {
        Some(existing) => if replaces(Some(existing.covers()), incoming.covers()) {
            incoming.inherited(existing)
        } else {
            existing.absorbed(incoming)
        },
        None => incoming,
    }
}

/// Snapshots held per window, so a switch can composite without capturing anything. Keyed by
/// [`WindowId`] because window server numbers are recycled when a window closes and reopens.
pub struct SnapshotCache<T = WindowSnapshot> {
    entries: Vec<(WindowId, T)>,
}

/// The entries as a map.
pub open spec fn as_map<T>(entries: Seq<(WindowId, T)>) -> Map<WindowId, T> {
    Map::new(|w: WindowId| listed(entries, w), |w: WindowId| entries[first_at(entries, w)].1)
}

impl<T> SnapshotCache<T> {
    /// What is held for each window.
    pub closed spec fn view(&self) -> Map<WindowId, T> {
        as_map(self.entries@)
    }

    /// The entries in the order they were made.
    pub closed spec fn listing(&self) -> Seq<(WindowId, T)> {
        self.entries@
    }

    /// One entry per window.
    pub closed spec fn wf(&self) -> bool {
        one_each(self.entries@)
    }
}

/// The listing and the map hold the same pictures, one for each window.
pub proof fn the_listing_holds_what_the_map_holds<T>(cache: SnapshotCache<T>)
    requires
        cache.wf(),
    ensures
        one_each(cache.listing()),
        as_map(cache.listing()) == cache@,
{
}

impl<T: HasCoverage + CarriesOver> Default for SnapshotCache<T> {
    fn default() -> (r: Self)
        ensures
            r.wf(),
            r@ == Map::<WindowId, T>::empty(),
    {
        SnapshotCache::new()
    }
}

impl<T: HasCoverage + CarriesOver> SnapshotCache<T> {
    pub fn new() -> (r: Self)
        ensures
            r.wf(),
            r@ == Map::<WindowId, T>::empty(),
    {
        let r: SnapshotCache<T> = SnapshotCache { entries: Vec::new() };
        assert(r@ =~= Map::<WindowId, T>::empty());
        r
    }

    /// Stores a snapshot, unless its pixels would downgrade a usable picture; what carries over
    /// survives either way.
    pub fn insert(&mut self, window: WindowId, snapshot: T)
        requires
            old(self).wf(),
        ensures
            final(self).wf(),
            final(self)@ == old(self)@.insert(
                window,
                after_insert(
                    if old(self)@.dom().contains(window) {
                        Some(old(self)@[window])
                    } else {
                        None
                    },
                    snapshot,
                ),
            ),
    {
        let ghost before = self.entries@;
        let mut incoming: T = snapshot;
        match find(&self.entries, window) {
            Some(i) => {
                let stays: bool = !should_replace(
                    Some(self.entries[i].1.coverage()),
                    incoming.coverage(),
                );
                if stays {
                    self.entries[i].1.absorb(incoming);
                } else {
                    incoming.inherit(&self.entries[i].1);
                    self.entries[i].1 = incoming;
                }
                proof {
                    replaced_entry(before, self.entries@, i as int, window);
                }
            },
            None => {
                self.entries.push((window, incoming));
                proof {
                    pushed_entry(before, self.entries@, window);
                }
            },
        }
    }

    pub fn get(&self, window: WindowId) -> (r: Option<&T>)
        ensures
            r is Some <==> self@.dom().contains(window),
            r matches Some(held) ==> *held == self@[window],
    {
        match find(&self.entries, window) {
            Some(i) => Some(&self.entries[i].1),
            None => None,
        }
    }

    pub fn get_mut(&mut self, window: WindowId) -> (r: Option<&mut T>)
        requires
            old(self).wf(),
        ensures
            final(self).wf(),
            r is Some <==> old(self)@.dom().contains(window),
            r matches Some(held) ==> *held == old(self)@[window] && final(self)@ == old(
                self,
            )@.insert(window, *final(held)),
            r is None ==> final(self)@ == old(self)@,
    {
        match find(&self.entries, window) {
            Some(i) => {
                let ghost before = self.entries@;
                let entry: &mut (WindowId, T) = &mut self.entries[i];
                proof {
                    assert forall|v: T|
                        #![trigger before.update(i as int, (window, v))]
                        one_each(before.update(i as int, (window, v))) && as_map(
                            before.update(i as int, (window, v)),
                        ) == as_map(before).insert(window, v) by {
                        replaced_entry(
                            before,
                            before.update(i as int, (window, v)),
                            i as int,
                            window,
                        );
                    }
                }
                Some(&mut entry.1)
            },
            None => None,
        }
    }

    /// The snapshot to actually draw, or `None` if what is held is not worth drawing.
    pub fn usable(&self, window: WindowId) -> (r: Option<&T>)
        ensures
            r is Some <==> self@.dom().contains(window) && self@[window].covers().usable(),
            r matches Some(held) ==> *held == self@[window],
    {
        match self.get(window) {
            Some(held) => if held.coverage().is_usable() {
                Some(held)
            } else {
                None
            },
            None => None,
        }
    }

    /// Drops what is held for one window.
    pub fn forget(&mut self, window: WindowId)
        requires
            old(self).wf(),
        ensures
            final(self).wf(),
            final(self)@ == old(self)@.remove(window),
    {
        let ghost before = self.entries@;
        match find(&self.entries, window) {
            Some(i) => {
                let gone: (WindowId, T) = self.entries.remove(i);
                proof {
                    removed_entry(before, self.entries@, i as int, window);
                }
            },
            None => {
                assert(self@ =~= old(self)@.remove(window));
            },
        }
    }

    /// Drops snapshots for windows that `live` says are gone.
    pub fn retain_only<F: Fn(WindowId) -> bool>(&mut self, live: &F)
        requires
            old(self).wf(),
            forall|w: WindowId| call_requires(*live, (w,)),
        ensures
            final(self).wf(),
            final(self)@.submap_of(old(self)@),
            forall|w: WindowId| #[trigger]
                old(self)@.dom().contains(w) ==> call_ensures(
                    *live,
                    (w,),
                    final(self)@.dom().contains(w),
                ),
    {
        let ghost before = self.entries@;
        let mut i: usize = 0;
        while i < self.entries.len()
            invariant
                i <= self.entries.len(),
                one_each(self.entries@),
                one_each(before),
                forall|w: WindowId| call_requires(*live, (w,)),
                as_map(self.entries@).submap_of(as_map(before)),
                forall|j: int|
                    0 <= j < i ==> call_ensures(*live, ((#[trigger] self.entries[j]).0,), true),
                forall|w: WindowId|
                    #![trigger listed(before, w)]
                    listed(before, w) && !listed(self.entries@, w) ==> call_ensures(
                        *live,
                        (w,),
                        false,
                    ),
            decreases self.entries.len() - i,
        {
            let window: WindowId = self.entries[i].0;
            let ghost now = self.entries@;
            let keep: bool = live(window);
            if keep {
                i += 1;
            } else {
                let gone: (WindowId, T) = self.entries.remove(i);
                proof {
                    assert(now[i as int].key() == window);
                    assert(listed(now, window));
                    removed_entry(now, self.entries@, i as int, window);
                    assert forall|w: WindowId|
                        #![trigger listed(before, w)]
                        listed(before, w) && !listed(self.entries@, w) implies call_ensures(
                        *live,
                        (w,),
                        false,
                    ) by {
                        if w != window {
                            assert(as_map(now).remove(window).dom().contains(w)
                                == as_map(now).dom().contains(w));
                            assert(as_map(self.entries@).dom().contains(w) == listed(
                                self.entries@,
                                w,
                            ));
                        }
                    }
                }
            }
        }
        proof {
            assert forall|w: WindowId| #[trigger] as_map(before).dom().contains(w) implies
                call_ensures(*live, (w,), as_map(self.entries@).dom().contains(w)) by {
                if listed(self.entries@, w) {
                    first_at_finds(self.entries@, w);
                    assert(self.entries[first_at(self.entries@, w)].0 == w);
                }
            }
        }
    }

    /// Every cached entry, in the order the windows were first cached.
    pub fn iter(&self) -> (r: &Vec<(WindowId, T)>)
        requires
            self.wf(),
        ensures
            r@ == self.listing(),
            one_each(r@),
            as_map(r@) == self@,
    {
        &self.entries
    }

    pub fn len(&self) -> (r: usize)
        requires
            self.wf(),
        ensures
            r == self@.len(),
            self@.dom().finite(),
    {
        proof {
            entries_count(self.entries@);
        }
        self.entries.len()
    }

    pub fn is_empty(&self) -> (r: bool)
        requires
            self.wf(),
        ensures
            r == (self@ == Map::<WindowId, T>::empty()),
    {
        proof {
            if self.entries@.len() > 0 {
                assert(listed(self.entries@, self.entries@[0].key()));
                assert(self@.dom().contains(self.entries@[0].0));
                assert(!Map::<WindowId, T>::empty().dom().contains(self.entries@[0].0));
            } else {
                assert(self@ =~= Map::<WindowId, T>::empty());
            }
        }
        self.entries.len() == 0
    }
}

proof fn replaced_entry<T>(
    before: Seq<(WindowId, T)>,
    after: Seq<(WindowId, T)>,
    at: int,
    window: WindowId,
)
    requires
        one_each(before),
        0 <= at < before.len(),
        before[at].0 == window,
        after.len() == before.len(),
        after[at].0 == window,
        forall|j: int| 0 <= j < before.len() && j != at ==> after[j] == before[j],
    ensures
        one_each(after),
        as_map(after) == as_map(before).insert(window, after[at].1),
{
    assert forall|i: int, j: int| 0 <= i < j < after.len() implies #[trigger] after[i].key()
        != #[trigger] after[j].key() by {
        assert(before[i].key() == after[i].key());
        assert(before[j].key() == after[j].key());
        assert(before[i].key() != before[j].key());
    }
    assert forall|w: WindowId| listed(after, w) == #[trigger] listed(before, w) && first_at(
        after,
        w,
    ) == first_at(before, w) by {
        first_at_finds(before, w);
        let p = first_at(before, w);
        assert forall|i: int| 0 <= i < p implies #[trigger] after[i].key() != w by {
            assert(before[i].key() != w);
        }
        if p < before.len() {
            assert(after[p].key() == w);
        }
        first_at_is(after, w, p);
        first_at_finds(after, w);
    }
    first_at_finds(before, window);
    if first_at(before, window) != at {
        let p = first_at(before, window);
        assert(listed(before, window)) by {
            assert(before[at].key() == window);
        }
        assert(before[p].key() == before[at].key());
        assert(false);
    }
    assert forall|w: WindowId| listed(before, w) && w != window implies #[trigger] after[first_at(
        after,
        w,
    )] == before[first_at(before, w)] by {
        first_at_finds(before, w);
        assert(listed(after, w) == listed(before, w));
    }
    assert(listed(before, window)) by {
        assert(before[at].key() == window);
    }
    assert(as_map(after) =~= as_map(before).insert(window, after[at].1));
}

proof fn pushed_entry<T>(before: Seq<(WindowId, T)>, after: Seq<(WindowId, T)>, window: WindowId)
    requires
        one_each(before),
        !listed(before, window),
        after.len() == before.len() + 1,
        after[before.len() as int].0 == window,
        forall|j: int| 0 <= j < before.len() ==> after[j] == before[j],
    ensures
        one_each(after),
        as_map(after) == as_map(before).insert(window, after[before.len() as int].1),
{
    let n = before.len() as int;
    assert forall|i: int, j: int| 0 <= i < j < after.len() implies #[trigger] after[i].key()
        != #[trigger] after[j].key() by {
        assert(before[i].key() == after[i].key());
        if j < n {
            assert(before[j].key() == after[j].key());
            assert(before[i].key() != before[j].key());
        }
    }
    assert(after[n].key() == window);
    first_at_finds(before, window);
    assert forall|i: int| 0 <= i < n implies #[trigger] after[i].key() != window by {
        assert(before[i].key() != window);
    }
    first_at_is(after, window, n);
    assert(listed(after, window));
    assert forall|w: WindowId| w != window implies listed(after, w) == #[trigger] listed(before, w)
        && (listed(before, w) ==> first_at(after, w) == first_at(before, w)) by {
        first_at_finds(before, w);
        let p = first_at(before, w);
        if listed(before, w) {
            assert forall|i: int| 0 <= i < p implies #[trigger] after[i].key() != w by {
                assert(before[i].key() != w);
            }
            assert(after[p].key() == w);
            first_at_is(after, w, p);
            assert(listed(after, w));
        } else {
            assert forall|i: int| 0 <= i < after.len() implies #[trigger] after[i].key() != w by {
                if i < n {
                    assert(before[i].key() != w);
                }
            }
        }
    }
    assert forall|w: WindowId| listed(before, w) implies #[trigger] after[first_at(after, w)]
        == before[first_at(before, w)] by {
        first_at_finds(before, w);
        assert(w != window);
    }
    assert(as_map(after) =~= as_map(before).insert(window, after[n].1));
}

proof fn removed_entry<T>(
    before: Seq<(WindowId, T)>,
    after: Seq<(WindowId, T)>,
    at: int,
    window: WindowId,
)
    requires
        one_each(before),
        0 <= at < before.len(),
        before[at].0 == window,
        after == before.remove(at),
    ensures
        one_each(after),
        as_map(after) == as_map(before).remove(window),
        forall|j: int| 0 <= j < at ==> after[j] == before[j],
{
    assert forall|i: int| 0 <= i < after.len() implies #[trigger] after[i] == before[if i < at {
        i
    } else {
        i + 1
    }] by {}
    assert forall|i: int, j: int| 0 <= i < j < after.len() implies #[trigger] after[i].key()
        != #[trigger] after[j].key() by {
        let (a, b) = (
            if i < at {
                i
            } else {
                i + 1
            },
            if j < at {
                j
            } else {
                j + 1
            },
        );
        assert(before[a].key() != before[b].key());
    }
    assert(!listed(after, window)) by {
        if listed(after, window) {
            let k = choose|k: int| 0 <= k < after.len() && #[trigger] after[k].key() == window;
            let m = if k < at {
                k
            } else {
                k + 1
            };
            assert(before[m].key() == before[at].key());
        }
    }
    assert forall|w: WindowId| w != window implies listed(after, w) == #[trigger] listed(before, w)
        && (listed(before, w) ==> after[first_at(after, w)] == before[first_at(before, w)]) by {
        first_at_finds(before, w);
        let p = first_at(before, w);
        if listed(before, w) {
            assert(before[at].key() != w);
            let q = if p < at {
                p
            } else {
                p - 1
            };
            assert(after[q] == before[p]);
            assert forall|i: int| 0 <= i < q implies #[trigger] after[i].key() != w by {
                let m = if i < at {
                    i
                } else {
                    i + 1
                };
                assert(before[m].key() != w);
            }
            assert(after[q].key() == w);
            first_at_is(after, w, q);
            assert(listed(after, w));
        } else {
            assert forall|i: int| 0 <= i < after.len() implies #[trigger] after[i].key() != w by {
                let m = if i < at {
                    i
                } else {
                    i + 1
                };
                assert(before[m].key() != w);
            }
        }
    }
    assert(as_map(after) =~= as_map(before).remove(window));
}

proof fn entries_count<T>(entries: Seq<(WindowId, T)>)
    requires
        one_each(entries),
    ensures
        as_map(entries).dom().finite(),
        as_map(entries).len() == entries.len(),
{
    let keys = entries.map_values(|e: (WindowId, T)| e.0);
    assert(keys.no_duplicates()) by {
        assert forall|i: int, j: int| 0 <= i < keys.len() && 0 <= j < keys.len() && i != j implies
            keys[i] != keys[j] by {
            if i < j {
                assert(entries[i].key() != entries[j].key());
            } else {
                assert(entries[j].key() != entries[i].key());
            }
        }
    }
    keys.unique_seq_to_set();
    assert(keys.to_set() =~= as_map(entries).dom()) by {
        assert forall|w: WindowId| keys.to_set().contains(w) == #[trigger] as_map(
            entries,
        ).dom().contains(w) by {
            if keys.contains(w) {
                let i = choose|i: int| 0 <= i < keys.len() && keys[i] == w;
                assert(entries[i].key() == w);
            }
            if listed(entries, w) {
                let i = choose|i: int|
                    0 <= i < entries.len() && #[trigger] entries[i].key() == w;
                assert(keys[i] == w);
            }
        }
    }
}

/// What carries over never touches the pixels a picture is judged by.
pub proof fn carrying_over_keeps_the_coverage(held: WindowSnapshot, other: WindowSnapshot)
    ensures
        held.inherited(other).covers() == held.covers(),
        held.absorbed(other).covers() == held.covers(),
{
}

/// Once a usable picture is held, whatever is offered next leaves a usable picture held.
pub proof fn a_held_picture_stays_usable(held: WindowSnapshot, incoming: WindowSnapshot)
    requires
        held.covers().usable(),
    ensures
        after_insert(Some(held), incoming).covers().usable(),
{
}

/// A hairline once seen is never lost to a capture without one.
pub proof fn a_hairline_survives_every_insert(held: WindowSnapshot, incoming: WindowSnapshot)
    ensures
        after_insert(Some(held), incoming).dressing == kept_dressing(
            held.dressing,
            incoming.dressing,
        ),
        held.dressing is Some ==> after_insert(Some(held), incoming).dressing is Some,
{
}

/// A newer picture takes the place of the one held, its pixels, route and time with it, unless that
/// would lose a usable picture to one that is not. The newest hairline seen stays either way.
pub proof fn the_newer_picture_is_held_unless_it_is_worse(
    held: WindowSnapshot,
    incoming: WindowSnapshot,
)
    ensures
        ({
            let after = after_insert(Some(held), incoming);
            let worse = held.coverage.usable() && !incoming.coverage.usable();
            &&& !worse ==> after.image == incoming.image && after.coverage == incoming.coverage
                && after.source == incoming.source && after.taken == incoming.taken
            &&& worse ==> after.image == held.image && after.coverage == held.coverage
                && after.source == held.source && after.taken == held.taken
            &&& incoming.dressing is Some ==> after.dressing == incoming.dressing
            &&& incoming.dressing is None ==> after.dressing == held.dressing
        }),
        after_insert(None::<WindowSnapshot>, incoming) == incoming,
{
}

/// What is offered for a window changes that window's picture alone, and a window offered a picture
/// has one. Asking for it gives what is held, and for drawing only what is usable.
pub proof fn the_cache_gives_back_what_it_was_given(
    cache: &mut SnapshotCache<WindowSnapshot>,
    window: WindowId,
    snapshot: WindowSnapshot,
    other: WindowId,
    done: (),
    held: Option<&WindowSnapshot>,
    usable: Option<&WindowSnapshot>,
)
    requires
        call_ensures(SnapshotCache::<WindowSnapshot>::insert, (cache, window, snapshot), done),
        old(cache).wf(),
        call_ensures(SnapshotCache::<WindowSnapshot>::get, (&*final(cache), window), held),
        call_ensures(SnapshotCache::<WindowSnapshot>::usable, (&*final(cache), window), usable),
    ensures
        held is Some,
        !old(cache)@.dom().contains(window) ==> *(held->0) == snapshot,
        snapshot.coverage.usable() ==> usable is Some && (usable->0).image == snapshot.image && (
        usable->0).taken == snapshot.taken,
        usable is Some ==> *(usable->0) == *(held->0) && (held->0).coverage.usable(),
        usable is None ==> !(held->0).coverage.usable(),
        other != window ==> (final(cache)@.dom().contains(other) <==> old(cache)@.dom().contains(
            other,
        )) && (old(cache)@.dom().contains(other) ==> final(cache)@[other] == old(cache)@[other]),
{
}

/// A window forgotten has no picture, and every other window keeps its own.
pub proof fn forgetting_leaves_the_others(
    cache: &mut SnapshotCache<WindowSnapshot>,
    window: WindowId,
    other: WindowId,
    done: (),
)
    requires
        call_ensures(SnapshotCache::<WindowSnapshot>::forget, (cache, window), done),
        old(cache).wf(),
    ensures
        !final(cache)@.dom().contains(window),
        other != window && old(cache)@.dom().contains(other) ==> final(cache)@.dom().contains(other)
            && final(cache)@[other] == old(cache)@[other],
        other != window && !old(cache)@.dom().contains(other) ==> !final(cache)@.dom().contains(
            other,
        ),
{
}

/// Pictures of windows that are gone are dropped, and those of live windows kept as they are.
pub proof fn a_sweep_keeps_the_living<F: Fn(WindowId) -> bool>(
    cache: &mut SnapshotCache<WindowSnapshot>,
    live: F,
    window: WindowId,
    done: (),
)
    requires
        forall|w: WindowId| call_requires(live, (w,)),
        call_ensures(SnapshotCache::<WindowSnapshot>::retain_only::<F>, (cache, &live), done),
        old(cache).wf(),
        old(cache)@.dom().contains(window),
    ensures
        (forall|r: bool| call_ensures(live, (window,), r) ==> r) ==> final(cache)@.dom().contains(
            window,
        ) && final(cache)@[window] == old(cache)@[window],
        (forall|r: bool| call_ensures(live, (window,), r) ==> !r) ==> !final(cache)@.dom().contains(
            window,
        ),
{
    assert(call_ensures(live, (window,), final(cache)@.dom().contains(window)));
}

/// What suits a size is what fits the frame of that size.
pub proof fn a_picture_suits_what_it_fits(snapshot: WindowSnapshot, size: Size)
    ensures
        snapshot.suits(size) <==> fitting(snapshot.coverage.covered, (size.width, size.height)),
        snapshot.covers() == snapshot.coverage,
{
}

} // verus!
