//! What happens when a picture or a hairline lands.
use vstd::prelude::*;

use crate::flight::decision::{
    capture_work_allowed, contains, should_swap_mid_flight, swap_rule, CacheComparison,
    CaptureKind, Claimed, SwapDecision,
};
use crate::flight::engine::{compared, print_seen, starts_moving, FlightEngine, Offer, Start};
use crate::flight::plan::FlightPlan;
use crate::flight::running::{claim_rule, claims, entered, enters, RunningAnimation};
use crate::flight::stack::OverlayTile;
use crate::ids::WindowId;
use crate::keyed::{added, lookup};
use crate::snapshot::{after_insert, WindowSnapshot};
use crate::time::Progress;

verus! {

/// The flight's progress, once it moves.
pub open spec fn moving_progress(flight: RunningAnimation, now: u64) -> Option<Progress> {
    if flight.started is Some {
        Some(flight.progress_at(now))
    } else {
        None
    }
}

/// What the rule says about a picture that landed.
pub open spec fn verdict(
    flight: RunningAnimation,
    window: WindowId,
    snapshot: WindowSnapshot,
    settled: bool,
    comparison: CacheComparison,
    now: u64,
) -> SwapDecision {
    swap_rule(
        flight.state_of(window, snapshot),
        settled,
        comparison.renders_like_cached,
        comparison.same_source,
        moving_progress(flight, now),
    )
}

/// `after` is `before` with `tile` among the entrances of its plan.
pub open spec fn joins_the_plan(
    before: RunningAnimation,
    after: RunningAnimation,
    tile: OverlayTile,
) -> bool {
    &&& after.plan.entrances@ == before.plan.entrances@.push((tile.window, tile.from, tile.to))
    &&& after == (RunningAnimation {
        plan: FlightPlan { entrances: after.plan.entrances, ..before.plan },
        ..before
    })
}

/// `offer` and the flight `after` are what becomes of `before` when a picture of `window` is offered
/// to it.
pub open spec fn offered(
    before: RunningAnimation,
    after: RunningAnimation,
    window: WindowId,
    snapshot: WindowSnapshot,
    settled: bool,
    comparison: CacheComparison,
    now: u64,
    offer: Offer,
) -> bool {
    match verdict(before, window, snapshot, settled, comparison, now) {
        // An unsettled capture of a held window can be its unpainted surface.
        SwapDecision::Claim => if settled && claim_rule(before, window, snapshot) is Some {
            if claim_rule(before, window, snapshot) == Some(Claimed::Released) {
                &&& offer == Offer::Taken(Start::Moving(before.duration))
                &&& exists|between: RunningAnimation| #[trigger]
                    claims(before, between, window, snapshot) && starts_moving(between, after, now)
            } else {
                &&& offer == Offer::Taken(Start::Nothing)
                &&& claims(before, after, window, snapshot)
            }
        } else {
            offer == Offer::CacheOnly && after == before
        },
        SwapDecision::Admit => if enters(before, window, snapshot) {
            &&& offer matches Offer::Entered(tile, travel)
            &&& exists|between: RunningAnimation| #[trigger]
                entered(before, between, window, snapshot) && Some(tile) == lookup(
                    between.tiles@,
                    window,
                ) && joins_the_plan(between, after, tile)
            &&& travel == before.progress_at(now).rest_of(before.duration as int)
        } else {
            offer == Offer::CacheOnly && after == before
        },
        SwapDecision::Swap(reason) => {
            &&& after == before
            &&& offer matches Offer::Swapped(why, left)
            &&& why == reason
            &&& left == before.progress_at(now).rest_of(before.duration as int)
        },
        SwapDecision::CacheOnly => offer == Offer::CacheOnly && after == before,
    }
}

/// The windows whose landed pictures may be dressed with a hairline: all usable ones, but only
/// without a flight.
pub open spec fn dressable(landed: Seq<(WindowId, WindowSnapshot)>) -> Seq<WindowId>
    decreases landed.len(),
{
    if landed.len() == 0 {
        Seq::empty()
    } else {
        let before = dressable(landed.drop_last());
        if landed.last().1.coverage.usable() {
            before.push(landed.last().0)
        } else {
            before
        }
    }
}

/// What the cache holds for a window, if anything.
pub open spec fn held_for(cache: Map<WindowId, WindowSnapshot>, window: WindowId) -> Option<
    WindowSnapshot,
> {
    if cache.dom().contains(window) {
        Some(cache[window])
    } else {
        None
    }
}

/// `after` has the picture of `window` in its cache, and the hairline among the harvested where it
/// carries one.
pub open spec fn cached_in(
    before: FlightEngine,
    after: FlightEngine,
    window: WindowId,
    snapshot: WindowSnapshot,
) -> bool {
    after.cache@ == before.cache@.insert(
        window,
        after_insert(held_for(before.cache@, window), snapshot),
    )
}

impl FlightEngine {
    /// Offers an already-cached picture to the running flight.
    pub fn offer_mid_flight(
        &mut self,
        window: WindowId,
        snapshot: &WindowSnapshot,
        settled: bool,
        comparison: CacheComparison,
        now: u64,
    ) -> (r: Offer)
        requires
            old(self).wf(),
        ensures
            final(self).wf(),
            old(self).running is None ==> r == Offer::CacheOnly && *final(self) == *old(self),
            old(self).running matches Some(flight) ==> {
                &&& final(self).running is Some
                &&& offered(
                    flight,
                    final(self).running->0,
                    window,
                    *snapshot,
                    settled,
                    comparison,
                    now,
                    r,
                )
            },
            final(self).coalesce == (if r matches Offer::Taken(Start::Moving(_)) {
                None
            } else {
                old(self).coalesce
            }),
            *final(self) == (FlightEngine {
                running: final(self).running,
                coalesce: final(self).coalesce,
                ..*old(self)
            }),
    {
        let ghost before = self.running;
        let mut released: bool = false;
        match &mut self.running {
            None => {
                return Offer::CacheOnly;
            },
            Some(flight) => {
                let progress: Option<Progress> = flight.progress_if_started(now);
                let decision: SwapDecision = should_swap_mid_flight(
                    flight.tile_state(window, snapshot),
                    settled,
                    comparison.renders_like_cached,
                    comparison.same_source,
                    progress,
                );
                match decision {
                    SwapDecision::Claim => {
                        if !settled {
                            return Offer::CacheOnly;
                        }
                        match flight.claim(window, snapshot) {
                            None => {
                                return Offer::CacheOnly;
                            },
                            Some(Claimed::Released) => {
                                released = true;
                            },
                            Some(_) => {},
                        }
                    },
                    SwapDecision::Admit => {
                        match flight.let_in(window, snapshot, now) {
                            Some((tile, travel)) => {
                                let ghost between = *flight;
                                flight.plan.entrances.push((tile.window, tile.from, tile.to));
                                assert(joins_the_plan(between, *flight, tile));
                                return Offer::Entered(tile, travel);
                            },
                            None => {
                                return Offer::CacheOnly;
                            },
                        }
                    },
                    SwapDecision::Swap(reason) => {
                        return Offer::Swapped(reason, flight.remaining(now));
                    },
                    SwapDecision::CacheOnly => {
                        return Offer::CacheOnly;
                    },
                }
            },
        }
        let ghost between = self.running->0;
        assert(claims(before->0, between, window, *snapshot));
        if released {
            let start: Start = self.start_moving(now);
            assert(starts_moving(between, self.running->0, now));
            Offer::Taken(start)
        } else {
            Offer::Taken(Start::Nothing)
        }
    }

    /// Takes a framed recapture: a chase's reveal, or the destination refresh. It is judged against
    /// the cache as it was before the cache absorbs it; the thumbprints are those of the cached
    /// picture and of this one, where they have any.
    pub fn picture_ready(
        &mut self,
        window: WindowId,
        snapshot: &WindowSnapshot,
        settled: bool,
        cached_print: Option<&Vec<u8>>,
        incoming_print: Option<&Vec<u8>>,
        now: u64,
    ) -> (r: Offer)
        requires
            old(self).wf(),
        ensures
            final(self).wf(),
            cached_in(*old(self), *final(self), window, *snapshot),
            old(self).running is None ==> r == Offer::CacheOnly && final(self).running is None,
            old(self).running matches Some(flight) ==> {
                &&& final(self).running is Some
                &&& exists|noted: RunningAnimation| #[trigger]
                    notes_harvest(flight, noted, window, snapshot.dressing is Some) && offered(
                        noted,
                        final(self).running->0,
                        window,
                        *snapshot,
                        settled,
                        compared(
                            old(self).cache@,
                            window,
                            *snapshot,
                            print_seen(cached_print),
                            print_seen(incoming_print),
                        ),
                        now,
                        r,
                    )
            },
            final(self).coalesce == (if r matches Offer::Taken(Start::Moving(_)) {
                None
            } else {
                old(self).coalesce
            }),
            *final(self) == (FlightEngine {
                cache: final(self).cache,
                running: final(self).running,
                coalesce: final(self).coalesce,
                ..*old(self)
            }),
    {
        let ghost before = self.running;
        let comparison: CacheComparison = self.compare_with_cached(
            window,
            snapshot,
            cached_print,
            incoming_print,
        );
        if snapshot.dressing.is_some() {
            self.note_harvest(window);
        }
        let ghost noted = self.running;
        self.cache.insert(window, *snapshot);
        let offer: Offer = self.offer_mid_flight(window, snapshot, settled, comparison, now);
        proof {
            if before is Some {
                assert(notes_harvest(before->0, noted->0, window, snapshot.dressing is Some));
            }
        }
        offer
    }

    fn note_harvest(&mut self, window: WindowId)
        requires
            old(self).wf(),
        ensures
            final(self).wf(),
            old(self).running is None ==> *final(self) == *old(self),
            old(self).running matches Some(flight) ==> final(self).running is Some
                && notes_harvest(flight, final(self).running->0, window, true),
            *final(self) == (FlightEngine { running: final(self).running, ..*old(self) }),
    {
        match &mut self.running {
            Some(flight) => {
                crate::keyed::add(&mut flight.harvested, window);
            },
            None => {},
        }
    }

    /// Takes a background capture: it is never settled, and an unusable one is only cached. It is
    /// judged against the cache as it was, as [`Self::picture_ready`] judges.
    pub fn snapshot_landed(
        &mut self,
        window: WindowId,
        snapshot: &WindowSnapshot,
        cached_print: Option<&Vec<u8>>,
        incoming_print: Option<&Vec<u8>>,
        now: u64,
    ) -> (r: Offer)
        requires
            old(self).wf(),
        ensures
            final(self).wf(),
            cached_in(*old(self), *final(self), window, *snapshot),
            old(self).running is None || !snapshot.coverage.usable() ==> r == Offer::CacheOnly
                && final(self).running == old(self).running,
            old(self).running is Some && snapshot.coverage.usable() ==> final(self).running is Some
                && offered(
                old(self).running->0,
                final(self).running->0,
                window,
                *snapshot,
                false,
                compared(
                    old(self).cache@,
                    window,
                    *snapshot,
                    print_seen(cached_print),
                    print_seen(incoming_print),
                ),
                now,
                r,
            ),
            final(self).coalesce == (if r matches Offer::Taken(Start::Moving(_)) {
                None
            } else {
                old(self).coalesce
            }),
            *final(self) == (FlightEngine {
                cache: final(self).cache,
                running: final(self).running,
                coalesce: final(self).coalesce,
                ..*old(self)
            }),
    {
        let comparison: CacheComparison = self.compare_with_cached(
            window,
            snapshot,
            cached_print,
            incoming_print,
        );
        self.cache.insert(window, *snapshot);
        if snapshot.is_usable() {
            self.offer_mid_flight(window, snapshot, false, comparison, now)
        } else {
            Offer::CacheOnly
        }
    }

    /// The windows of a landed batch to harvest a hairline for. Mid-flight the batch is cached
    /// without one.
    pub fn to_dress(&self, landed: &Vec<(WindowId, WindowSnapshot)>) -> (r: Vec<WindowId>)
        ensures
            r@ == (if self.running is None {
                dressable(landed@)
            } else {
                Seq::empty()
            }),
    {
        let mut out: Vec<WindowId> = Vec::new();
        if !capture_work_allowed(self.phase(), CaptureKind::Harvest) {
            return out;
        }
        let mut i: usize = 0;
        while i < landed.len()
            invariant
                i <= landed.len(),
                out@ == dressable(landed@.take(i as int)),
            decreases landed.len() - i,
        {
            assert(landed@.take(i + 1).drop_last() == landed@.take(i as int));
            if landed[i].1.is_usable() {
                out.push(landed[i].0);
            }
            i += 1;
        }
        assert(landed@.take(landed@.len() as int) == landed@);
        out
    }

    /// Takes a finished hairline harvest onto the cached snapshot, and remembers it for the flight.
    /// Returns whether a tile in flight may wear it.
    pub fn dressing_ready(&mut self, window: WindowId, dressing: u64) -> (r: bool)
        requires
            old(self).wf(),
        ensures
            final(self).wf(),
            r == (old(self).running is Some),
            final(self).cache@ == (if old(self).cache@.dom().contains(window) {
                old(self).cache@.insert(
                    window,
                    WindowSnapshot { dressing: Some(dressing), ..old(self).cache@[window] },
                )
            } else {
                old(self).cache@
            }),
            old(self).running is None ==> final(self).running is None,
            old(self).running matches Some(flight) ==> final(self).running is Some
                && notes_harvest(flight, final(self).running->0, window, true),
            *final(self) == (FlightEngine {
                cache: final(self).cache,
                running: final(self).running,
                ..*old(self)
            }),
    {
        if let Some(held) = self.cache.get_mut(window) {
            held.dressing = Some(dressing);
        }
        if self.running.is_none() {
            return false;
        }
        self.note_harvest(window);
        true
    }
}

/// `after` is `before` with the window among the harvested, where a hairline was seen.
pub open spec fn notes_harvest(
    before: RunningAnimation,
    after: RunningAnimation,
    window: WindowId,
    seen: bool,
) -> bool {
    &&& after.harvested@ == (if seen {
        added(before.harvested@, window)
    } else {
        before.harvested@
    })
    &&& after == (RunningAnimation { harvested: after.harvested, ..before })
}

/// A background capture can never start a held flight: only a settled picture is claimed.
pub proof fn a_background_capture_never_releases_a_hold(
    before: RunningAnimation,
    after: RunningAnimation,
    window: WindowId,
    snapshot: WindowSnapshot,
    comparison: CacheComparison,
    now: u64,
    offer: Offer,
)
    requires
        before.started is None,
        offered(before, after, window, snapshot, false, comparison, now, offer),
    ensures
        offer == Offer::CacheOnly,
        after == before,
{
}

/// Only what the rule lets in changes the flight: a claim needs a settled picture, an entrance joins
/// the plan from its own left edge, a swap leaves the flight as it is, and its clock and frames are
/// never touched but by the release of the last hold.
pub proof fn an_offer_changes_only_what_it_takes(
    before: RunningAnimation,
    after: RunningAnimation,
    window: WindowId,
    snapshot: WindowSnapshot,
    settled: bool,
    comparison: CacheComparison,
    now: u64,
    offer: Offer,
)
    requires
        offered(before, after, window, snapshot, settled, comparison, now, offer),
    ensures
        offer == Offer::CacheOnly ==> after == before,
        offer is Swapped ==> after == before && before.started is Some,
        offer matches Offer::Taken(start) ==> {
            &&& settled && before.started is None && snapshot.coverage.usable()
            &&& start == Start::Nothing ==> after.started is None
            &&& start != Start::Nothing ==> start == Start::Moving(before.duration)
                && after.started == Some(now) && after.awaiting@.len() == 0
                && before.awaiting@.len() == 1
        },
        offer matches Offer::Entered(tile, travel) ==> {
            &&& before.started is Some && snapshot.coverage.usable() && tile.window == window
            &&& after.plan.entrances@ == before.plan.entrances@.push((window, tile.from, tile.to))
            &&& after.entrances@.len() + 1 == before.entrances@.len()
            &&& travel == before.progress_at(now).rest_of(before.duration as int)
        },
        offer matches Offer::Swapped(_, left) ==> left == before.progress_at(now).rest_of(
            before.duration as int,
        ),
        after.duration == before.duration && after.final_frames == before.final_frames
            && after.frames_applied == before.frames_applied && after.focus == before.focus,
        offer !is Taken ==> after.started == before.started,
{
    crate::keyed::first_at_finds(before.entrances@, window);
    crate::keyed::first_at_finds(before.awaiting@, window);
    if let Offer::Entered(tile, travel) = offer {
        let between = choose|between: RunningAnimation| #[trigger]
            entered(before, between, window, snapshot) && Some(tile) == lookup(
                between.tiles@,
                window,
            ) && joins_the_plan(between, after, tile);
        crate::keyed::first_at_finds(between.tiles@, window);
        assert(crate::keyed::Keyed::key(&tile) == window);
    }
    if let Offer::Taken(start) = offer {
        if start != Start::Nothing {
            let between = choose|between: RunningAnimation| #[trigger]
                claims(before, between, window, snapshot) && starts_moving(between, after, now);
            assert(claims(before, between, window, snapshot));
        }
    }
}

/// A picture that lands is cached before anything else comes of it, whatever the flight makes of it;
/// no other window's picture changes. Without a flight nothing more comes of it.
pub proof fn a_landed_picture_is_cached(
    engine: &mut FlightEngine,
    window: WindowId,
    snapshot: WindowSnapshot,
    now: u64,
    other: WindowId,
    offer: Offer,
)
    requires
        call_ensures(
            FlightEngine::snapshot_landed,
            (engine, window, &snapshot, None::<&Vec<u8>>, None::<&Vec<u8>>, now),
            offer,
        ),
        old(engine).wf(),
    ensures
        final(engine).cache@.dom().contains(window),
        snapshot.coverage.usable() ==> final(engine).cache@[window].coverage.usable()
            && final(engine).cache@[window].image == snapshot.image,
        other != window && old(engine).cache@.dom().contains(other)
            ==> final(engine).cache@.dom().contains(other) && final(engine).cache@[other] == old(engine).cache@[other],
        old(engine).running is None ==> offer == Offer::CacheOnly && final(engine).running is None,
        !snapshot.coverage.usable() ==> offer == Offer::CacheOnly && final(engine).running == old(engine).running,
        offer !is Taken,
        final(engine).coalesce == old(engine).coalesce,
{
    if old(engine).running is Some && snapshot.coverage.usable() {
        an_offer_changes_only_what_it_takes(
            old(engine).running->0,
            final(engine).running->0,
            window,
            snapshot,
            false,
            compared(old(engine).cache@, window, snapshot, None, None),
            now,
            offer,
        );
    }
}

/// A recapture with a hairline is remembered as harvested for the flight, once; one without is not.
pub proof fn a_hairline_seen_is_harvested(
    before: RunningAnimation,
    after: RunningAnimation,
    window: WindowId,
    seen: bool,
    other: WindowId,
)
    requires
        notes_harvest(before, after, window, seen),
    ensures
        seen ==> after.harvested@.contains(window),
        !seen ==> after.harvested@ == before.harvested@,
        before.harvested@.contains(other) ==> after.harvested@.contains(other),
        before.harvested@.contains(window) ==> after.harvested@ == before.harvested@,
        after.tiles == before.tiles && after.started == before.started && after.plan == before.plan,
{
    crate::flight::decision::listed_is_contained(before.harvested@, window);
    if seen && !before.harvested@.contains(window) {
        assert(after.harvested@[before.harvested@.len() as int] == window);
    }
    if before.harvested@.contains(other) {
        let i = choose|i: int| 0 <= i < before.harvested@.len() && before.harvested@[i] == other;
        assert(after.harvested@[i] == other);
    }
}

/// A hairline goes onto the cached picture of its window and changes nothing else of it; a window
/// without a picture gets none. A flight's tile may wear it.
pub proof fn a_hairline_goes_onto_the_held_picture(
    engine: &mut FlightEngine,
    window: WindowId,
    dressing: u64,
    other: WindowId,
    worn: bool,
)
    requires
        call_ensures(FlightEngine::dressing_ready, (engine, window, dressing), worn),
        old(engine).wf(),
    ensures
        worn <==> old(engine).running is Some,
        old(engine).cache@.dom().contains(window) ==> {
            &&& final(engine).cache@.dom().contains(window)
            &&& final(engine).cache@[window].dressing == Some(dressing)
            &&& final(engine).cache@[window].image == old(engine).cache@[window].image
            &&& final(engine).cache@[window].coverage == old(engine).cache@[window].coverage
            &&& final(engine).cache@[window].taken == old(engine).cache@[window].taken
        },
        !old(engine).cache@.dom().contains(window) ==> final(engine).cache@ == old(engine).cache@,
        other != window && old(engine).cache@.dom().contains(other) ==> final(engine).cache@[other]
            == old(engine).cache@[other],
        old(engine).running matches Some(flight) ==> (
        final(engine).running->0).harvested@.contains(window),
{
    if let Some(flight) = old(engine).running {
        a_hairline_seen_is_harvested(flight, final(engine).running->0, window, true, other);
    }
}

/// Hairlines are harvested for the usable pictures of a batch, in order, and never under a flight.
pub proof fn a_usable_picture_is_dressed_on_the_ground(
    engine: FlightEngine,
    landed: Vec<(WindowId, WindowSnapshot)>,
    windows: Vec<WindowId>,
    i: int,
    window: WindowId,
)
    requires
        call_ensures(FlightEngine::to_dress, (&engine, &landed), windows),
    ensures
        engine.running is Some ==> windows@.len() == 0,
        engine.running is None ==> {
            &&& 0 <= i < landed@.len() && landed@[i].1.coverage.usable() ==> windows@.contains(
                landed@[i].0,
            )
            &&& windows@.contains(window) ==> exists|k: int|
                0 <= k < landed@.len() && (#[trigger] landed@[k]).0 == window
                    && landed@[k].1.coverage.usable()
        },
{
    what_is_dressed_is_usable(landed@, i, window);
}

proof fn what_is_dressed_is_usable(
    landed: Seq<(WindowId, WindowSnapshot)>,
    i: int,
    window: WindowId,
)
    ensures
        0 <= i < landed.len() && landed[i].1.coverage.usable() ==> dressable(landed).contains(
            landed[i].0,
        ),
        dressable(landed).contains(window) ==> exists|k: int|
            0 <= k < landed.len() && (#[trigger] landed[k]).0 == window
                && landed[k].1.coverage.usable(),
    decreases landed.len(),
{
    if landed.len() > 0 {
        let rest = landed.drop_last();
        what_is_dressed_is_usable(rest, i, window);
        let before = dressable(rest);
        let all = dressable(landed);
        if 0 <= i < rest.len() && landed[i].1.coverage.usable() {
            assert(rest[i] == landed[i]);
            let k = choose|k: int| 0 <= k < before.len() && before[k] == landed[i].0;
            assert(all[k] == landed[i].0);
        } else if i == rest.len() && landed[i].1.coverage.usable() {
            assert(all[before.len() as int] == landed[i].0);
        }
        if all.contains(window) {
            let k = choose|k: int| 0 <= k < all.len() && all[k] == window;
            if k < before.len() {
                assert(before[k] == window);
                let j = choose|j: int|
                    0 <= j < rest.len() && (#[trigger] rest[j]).0 == window
                        && rest[j].1.coverage.usable();
                assert(landed[j] == rest[j]);
            } else {
                assert(landed[landed.len() - 1].0 == window);
            }
        }
    }
}

/// A recapture is cached like any other picture, and its hairline is noted for the flight; what the
/// flight makes of it is judged against the picture held before.
pub proof fn a_recapture_is_cached_and_noted(
    engine: &mut FlightEngine,
    window: WindowId,
    snapshot: WindowSnapshot,
    settled: bool,
    now: u64,
    other: WindowId,
    offer: Offer,
)
    requires
        call_ensures(
            FlightEngine::picture_ready,
            (engine, window, &snapshot, settled, None::<&Vec<u8>>, None::<&Vec<u8>>, now),
            offer,
        ),
        old(engine).wf(),
    ensures
        final(engine).cache@.dom().contains(window),
        snapshot.coverage.usable() ==> final(engine).cache@[window].image == snapshot.image,
        snapshot.dressing is Some ==> final(engine).cache@[window].dressing == snapshot.dressing,
        other != window && old(engine).cache@.dom().contains(other)
            ==> final(engine).cache@.dom().contains(other) && final(engine).cache@[other] == old(engine).cache@[other],
        old(engine).running is None ==> offer == Offer::CacheOnly && final(engine).running is None,
        old(engine).running is Some && snapshot.dressing is Some ==> (
        final(engine).running->0).harvested@.contains(window),
        !settled ==> offer !is Taken,
{
    if let Some(flight) = old(engine).running {
        let comparison = compared(old(engine).cache@, window, snapshot, None, None);
        let noted = choose|noted: RunningAnimation| #[trigger]
            notes_harvest(flight, noted, window, snapshot.dressing is Some) && offered(
                noted,
                final(engine).running->0,
                window,
                snapshot,
                settled,
                comparison,
                now,
                offer,
            );
        assert(notes_harvest(flight, noted, window, snapshot.dressing is Some));
        a_hairline_seen_is_harvested(flight, noted, window, snapshot.dressing is Some, window);
        an_offer_changes_only_what_it_takes(
            noted,
            final(engine).running->0,
            window,
            snapshot,
            settled,
            comparison,
            now,
            offer,
        );
        an_offer_keeps_what_was_harvested(
            noted,
            final(engine).running->0,
            window,
            snapshot,
            settled,
            comparison,
            now,
            offer,
        );
    }
}

proof fn an_offer_keeps_what_was_harvested(
    before: RunningAnimation,
    after: RunningAnimation,
    window: WindowId,
    snapshot: WindowSnapshot,
    settled: bool,
    comparison: CacheComparison,
    now: u64,
    offer: Offer,
)
    requires
        offered(before, after, window, snapshot, settled, comparison, now, offer),
    ensures
        after.harvested == before.harvested,
{
    if let Offer::Taken(start) = offer {
        if start != Start::Nothing {
            let between = choose|between: RunningAnimation| #[trigger]
                claims(before, between, window, snapshot) && starts_moving(between, after, now);
            assert(claims(before, between, window, snapshot));
        }
    }
}

} // verus!
