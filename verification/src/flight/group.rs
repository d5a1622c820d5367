//! A composed pass on its way into the air: grounded, folded into the running flight, or flown as a
//! fresh one.
use vstd::prelude::*;

use crate::flight::compose::{
    any_resize, any_resizes, companion_candidates, companion_tiles, compose_request, composed, final_frames_of, found, leg,
    listing_inside, moving_frames, requests_inside, spawn_capture_due, strip_travel, takes_in,
    travel_at, unmanaged, wants_spawn_capture, AnimationRequest, Anchor, Companions, Composed,
    Composition, ServerView, SurfaceComposition,
};
use crate::flight::decision::{
    allows, apply_frames_at, capture_work_allowed, defer_warm, frame_zero_work, frames_change, frames_inside, managed_server_ids,
    managed, merge_final_frames, reapply_set, retarget_entrances, retargeted, reveal_hold_limit,
    windows_of, worth_flying, CaptureKind, FlightKind, PendingEntrance, SnapshotTarget, COALESCE_WINDOW, HOLD_CAP,
};
use crate::flight::engine::{
    any_moves, moving_drawable, phase_with, started_at, starts_moving, wanted_of, windows_of_targets,
    Begun, FlightEngine, FollowUp, Group, GroupStart, Merge, Start,
};
use crate::flight::landing::held_for;
use crate::flight::plan::FlightPlan;
use crate::flight::running::{merged_all, RunningAnimation};
use crate::flight::stack::{restack, restacked, synced, sync_tiles_to_plan, OverlayTile};
use crate::geometry::{Point, Rect, Size};
use crate::ids::{WindowId, WindowServerId};
use crate::keyed::{add_all, added_all, copied, upserted_all};
use crate::snapshot::{after_insert, WindowSnapshot};
use crate::surface::SurfaceWindow;
use crate::travel::worthwhile;

verus! {

/// What a pass asks captures for: every window of it at its destination's size, then its borders.
pub open spec fn animated_targets(
    requests: Seq<AnimationRequest>,
    companions: Seq<SnapshotTarget>,
) -> Seq<SnapshotTarget> {
    requests.map_values(
        |r: AnimationRequest|
            SnapshotTarget { window: r.window, server_id: r.server_id, size: r.to.size },
    ) + companions
}

/// What a strip movement asks captures for.
pub open spec fn surface_targets(windows: Seq<SurfaceWindow>) -> Seq<SnapshotTarget> {
    windows.map_values(
        |w: SurfaceWindow|
            SnapshotTarget { window: w.window, server_id: w.server_id, size: w.frame.size },
    )
}

/// What a strip movement asks captures for, remembered before anything can fail, so a window with no
/// picture is still warmed.
pub fn surface_animated(windows: &Vec<SurfaceWindow>) -> (r: Vec<SnapshotTarget>)
    ensures
        r@ == surface_targets(windows@),
{
    let mut out: Vec<SnapshotTarget> = Vec::new();
    let mut i: usize = 0;
    while i < windows.len()
        invariant
            i <= windows.len(),
            out@ == surface_targets(windows@.take(i as int)),
        decreases windows.len() - i,
    {
        let w: SurfaceWindow = windows[i];
        out.push(
            SnapshotTarget { window: w.window, server_id: w.server_id, size: w.frame.size },
        );
        i += 1;
        assert(out@ =~= surface_targets(windows@.take(i as int)));
    }
    assert(windows@.take(windows@.len() as int) == windows@);
    out
}

fn request_targets(requests: &Vec<AnimationRequest>) -> (r: Vec<SnapshotTarget>)
    ensures
        r@ == animated_targets(requests@, Seq::empty()),
{
    let mut out: Vec<SnapshotTarget> = Vec::new();
    let mut i: usize = 0;
    while i < requests.len()
        invariant
            i <= requests.len(),
            out@ == animated_targets(requests@.take(i as int), Seq::empty()),
        decreases requests.len() - i,
    {
        let request: AnimationRequest = requests[i];
        out.push(
            SnapshotTarget {
                window: request.window,
                server_id: request.server_id,
                size: request.to.size,
            },
        );
        i += 1;
        assert(out@ =~= animated_targets(requests@.take(i as int), Seq::empty()));
    }
    assert(requests@.take(requests@.len() as int) == requests@);
    out
}

fn append<T: Copy>(out: &mut Vec<T>, more: &Vec<T>)
    ensures
        final(out)@ == old(out)@ + more@,
{
    let ghost before = out@;
    let mut i: usize = 0;
    while i < more.len()
        invariant
            i <= more.len(),
            out@ == before + more@.take(i as int),
        decreases more.len() - i,
    {
        out.push(more[i]);
        i += 1;
        assert(out@ =~= before + more@.take(i as int));
    }
    assert(more@.take(more@.len() as int) == more@);
}

/// The tiles of a pass with those of its borders behind them.
pub fn pass_tiles(tiles: &Vec<OverlayTile>, borders: &Companions) -> (r: Vec<OverlayTile>)
    ensures
        r@ == tiles@ + borders.tiles@,
{
    let mut all: Vec<OverlayTile> = copied(tiles);
    append(&mut all, &borders.tiles);
    all
}

/// The windows of a pass that had no picture, with those of its borders behind them.
pub fn pass_captures(needs_capture: &Vec<SnapshotTarget>, borders: &Companions) -> (r: Vec<
    SnapshotTarget,
>)
    ensures
        r@ == needs_capture@ + borders.missing@,
{
    let mut all: Vec<SnapshotTarget> = copied(needs_capture);
    append(&mut all, &borders.missing);
    all
}

/// A composed layout pass as one group: it waits for the layout passes to settle, and places its
/// windows earlier when one of them resizes.
pub fn layout_group(
    pass: Composition,
    borders: &Companions,
    final_frames: Vec<(WindowId, Rect)>,
    requests: &Vec<AnimationRequest>,
    focus: Option<WindowId>,
    duration: u64,
) -> (group: Group)
    ensures
        group.tiles@ == pass.tiles@ + borders.tiles@,
        group.final_frames == final_frames,
        group.duration == duration,
        group.start == GroupStart::Coalesced,
        group.apply_at == (if any_resizes(requests@) {
            50u8
        } else {
            75u8
        }),
        group.entrances == pass.entrances,
        group.awaiting == pass.awaiting,
        group.chase == pass.chase,
        group.entrance_frames == pass.entrance_frames,
        group.focus == focus,
        frames_inside(final_frames@, 1) ==> group.wf(),
{
    Group {
        tiles: pass_tiles(&pass.tiles, borders),
        final_frames,
        duration,
        start: GroupStart::Coalesced,
        apply_at: apply_frames_at(FlightKind::Layout, any_resize(requests)),
        entrances: pass.entrances,
        awaiting: pass.awaiting,
        chase: pass.chase,
        entrance_frames: pass.entrance_frames,
        focus,
    }
}

/// The window is drawn as itself by one of the tiles, not as a border.
pub open spec fn is_drawn(tiles: Seq<OverlayTile>, window: WindowId) -> bool {
    exists|i: int|
        0 <= i < tiles.len() && (#[trigger] tiles[i]).window == window && !tiles[i].companion
}

/// The windows of a strip movement that are drawn, in order.
pub open spec fn drawn_windows(windows: Seq<SurfaceWindow>, tiles: Seq<OverlayTile>) -> Seq<
    SurfaceWindow,
>
    decreases windows.len(),
{
    if windows.len() == 0 {
        Seq::empty()
    } else {
        let before = drawn_windows(windows.drop_last(), tiles);
        if is_drawn(tiles, windows.last().window) {
            before.push(windows.last())
        } else {
            before
        }
    }
}

fn draws(tiles: &Vec<OverlayTile>, window: WindowId) -> (r: bool)
    ensures
        r == is_drawn(tiles@, window),
{
    let mut i: usize = 0;
    while i < tiles.len()
        invariant
            i <= tiles.len(),
            forall|j: int|
                0 <= j < i ==> !((#[trigger] tiles@[j]).window == window && !tiles@[j].companion),
        decreases tiles.len() - i,
    {
        if tiles[i].window == window && !tiles[i].companion {
            return true;
        }
        i += 1;
    }
    false
}

/// A composed strip movement as one group, and the windows it draws: the movement starts at once and
/// places its windows at frame zero. It never resizes and never carries a brand-new window, so it
/// holds for nothing.
pub fn surface_group(
    pass: SurfaceComposition,
    windows: &Vec<SurfaceWindow>,
    borders: &Companions,
    final_frames: Vec<(WindowId, Rect)>,
    focus: Option<WindowId>,
    duration: u64,
) -> (r: (Group, Vec<SurfaceWindow>))
    ensures
        r.1@ == drawn_windows(windows@, pass.tiles@ + borders.tiles@),
        r.0.tiles@ == pass.tiles@ + borders.tiles@,
        r.0.final_frames == final_frames,
        r.0.duration == duration,
        r.0.start == GroupStart::Immediate,
        r.0.apply_at == 0,
        r.0.entrances@.len() == 0,
        r.0.awaiting@.len() == 0,
        r.0.chase@.len() == 0,
        r.0.entrance_frames@.len() == 0,
        r.0.focus == focus,
        frames_inside(final_frames@, 1) ==> r.0.wf(),
{
    let tiles: Vec<OverlayTile> = pass_tiles(&pass.tiles, borders);
    let mut shown: Vec<SurfaceWindow> = Vec::new();
    let mut i: usize = 0;
    while i < windows.len()
        invariant
            i <= windows.len(),
            shown@ == drawn_windows(windows@.take(i as int), tiles@),
        decreases windows.len() - i,
    {
        assert(windows@.take(i + 1).drop_last() == windows@.take(i as int));
        if draws(&tiles, windows[i].window) {
            shown.push(windows[i]);
        }
        i += 1;
    }
    assert(windows@.take(windows@.len() as int) == windows@);
    let group: Group = Group {
        tiles,
        final_frames,
        duration,
        start: GroupStart::Immediate,
        apply_at: apply_frames_at(FlightKind::Pan, false),
        entrances: Vec::new(),
        awaiting: Vec::new(),
        chase: Vec::new(),
        entrance_frames: Vec::new(),
        focus,
    };
    (group, shown)
}

/// The windows the cache and the owed captures speak of.
pub open spec fn owed_windows(engine: FlightEngine) -> Seq<WindowId> {
    windows_of(engine.deferred_warm@) + (match engine.after_flight {
        Some(after) => windows_of(after.targets@),
        None => Seq::empty(),
    })
}

/// The usable pictures of the cache, by window.
pub open spec fn usable_entries(listing: Seq<(WindowId, WindowSnapshot)>) -> Seq<
    (WindowId, WindowSnapshot),
>
    decreases listing.len(),
{
    if listing.len() == 0 {
        Seq::empty()
    } else {
        let before = usable_entries(listing.drop_last());
        if listing.last().1.coverage.usable() {
            before.push(listing.last())
        } else {
            before
        }
    }
}

/// The windows of the cache's entries.
pub open spec fn listed_windows(listing: Seq<(WindowId, WindowSnapshot)>) -> Seq<WindowId> {
    listing.map_values(|e: (WindowId, WindowSnapshot)| e.0)
}

/// What became of a composed pass.
pub enum PassVerdict {
    /// Nothing drawable moves and no flight is up: the frames are placed at once, and these windows
    /// captured for the next time.
    Grounded(Vec<(WindowId, Rect)>, Vec<SnapshotTarget>),
    /// It flies.
    Fly(Vec<(WindowId, Rect)>),
}

/// `after` is the flight `before` with the pass `group` folded in, its plan not yet merged.
pub open spec fn folded(
    before: RunningAnimation,
    after: RunningAnimation,
    group: Group,
    display: Option<Rect>,
    now: u64,
) -> bool {
    let holds = before.started is None && group.awaiting@.len() > 0;
    let reserved = added_all(before.entrances@, group.entrances@);
    &&& after.apply_at == (if group.apply_at < before.apply_at {
        group.apply_at
    } else {
        before.apply_at
    })
    &&& after.entrances@ == (match display {
        Some(frame) => reserved.map_values(
            |e: PendingEntrance| retargeted(e, group.final_frames@, frame),
        ),
        None => reserved,
    })
    &&& after.final_frames@ == upserted_all(before.final_frames@, group.final_frames@)
    &&& after.awaiting@ == (if holds {
        upserted_all(before.awaiting@, group.awaiting@)
    } else {
        before.awaiting@
    })
    &&& after.hold_deadline == (if holds && before.hold_deadline is None {
        Some((now + HOLD_CAP) as u64)
    } else {
        before.hold_deadline
    })
    &&& after.frames_applied == (before.frames_applied || holds)
    &&& after.focus == (if group.focus is Some {
        group.focus
    } else {
        before.focus
    })
    &&& after.tiles@ == restacked(merged_all(before.tiles@, group.tiles@), after.focus)
    &&& after.started == before.started
    &&& after.duration == before.duration
    &&& after.destination_refreshed == before.destination_refreshed
    &&& after.refresh_targets == before.refresh_targets
    &&& after.harvested == before.harvested
    &&& after.plan == before.plan
}

/// `after` is the moving flight `before` on its merged plan.
pub open spec fn replanned(
    before: RunningAnimation,
    after: RunningAnimation,
    merged: FlightPlan,
    changed: bool,
    frames_changed: bool,
    duration: u64,
    now: u64,
) -> bool {
    &&& after.plan == merged
    &&& after.tiles@ == before.tiles@.map_values(|t: OverlayTile| synced(t, merged))
    &&& after == (RunningAnimation {
        plan: after.plan,
        tiles: after.tiles,
        started: if changed {
            Some(now)
        } else {
            before.started
        },
        duration: if changed {
            duration
        } else {
            before.duration
        },
        frames_applied: before.frames_applied && !changed && !frames_changed,
        ..before
    })
}

/// `flight` is the fresh flight of `group`, at frame zero.
pub open spec fn fresh_flight(
    flight: RunningAnimation,
    group: Group,
    plan: FlightPlan,
    now: u64,
) -> bool {
    let holding = group.awaiting@.len() > 0;
    &&& flight.tiles@ == restacked(group.tiles@, group.focus)
    &&& flight.final_frames@ == group.final_frames@
    &&& flight.frames_applied == holding
    &&& flight.duration == group.duration
    &&& flight.apply_at == group.apply_at
    &&& flight.entrances@ == group.entrances@
    &&& flight.awaiting@ == group.awaiting@
    &&& flight.hold_deadline == (if holding {
        Some((now + HOLD_CAP) as u64)
    } else {
        None
    })
    &&& !flight.destination_refreshed
    &&& flight.refresh_targets@.len() == 0
    &&& flight.harvested@.len() == 0
    &&& flight.focus == group.focus
    &&& flight.plan == plan
}

impl Group {
    /// The destinations lie inside the limit and the apply point is a proper share of the way.
    pub open spec fn wf(&self) -> bool {
        frames_inside(self.final_frames@, 1) && self.apply_at <= 100
    }
}

/// The usable picture the cache holds for a window, if it does.
pub open spec fn usable_in(cache: Map<WindowId, WindowSnapshot>, window: WindowId) -> Option<
    WindowSnapshot,
> {
    if cache.dom().contains(window) && cache[window].coverage.usable() {
        Some(cache[window])
    } else {
        None
    }
}

/// What becomes of the request at `index` of a pass that has `budget` captures left.
pub open spec fn outcome_at(
    cache: Map<WindowId, WindowSnapshot>,
    requests: Seq<AnimationRequest>,
    index: int,
    view: ServerView,
    capture: Option<WindowSnapshot>,
    budget_left: bool,
    focus: Option<WindowId>,
    display: Rect,
) -> Composed {
    composed(
        requests[index],
        view,
        travel_at(requests, index, display),
        usable_in(cache, requests[index].window),
        capture,
        budget_left,
        focus,
        display,
    )
}

/// How many requests a composition has accounted for: drawn, off screen or reserved.
pub open spec fn accounted(composition: Composition) -> int {
    composition.tiles@.len() + composition.offscreen + composition.skipped
}

/// The request at `index` wants its spawn frame captured.
pub open spec fn capture_due_at(
    cache: Map<WindowId, WindowSnapshot>,
    requests: Seq<AnimationRequest>,
    index: int,
    view: ServerView,
    budget_left: bool,
    display: Rect,
) -> bool {
    let request = requests[index];
    let (start, end) = leg(request, view, travel_at(requests, index, display), display);
    worthwhile(start, end, display) && usable_in(cache, request.window) is None
        && spawn_capture_due(view.spawn_on(display), budget_left)
}

impl FlightEngine {
    fn usable_picture(&self, window: WindowId) -> (r: Option<WindowSnapshot>)
        ensures
            r == usable_in(self.cache@, window),
    {
        match self.cache.usable(window) {
            Some(held) => Some(*held),
            None => None,
        }
    }

    /// Whether the next request of a pass wants its spawn frame captured before it is composed.
    pub fn capture_due(
        &self,
        composition: &Composition,
        requests: &Vec<AnimationRequest>,
        index: usize,
        view: &ServerView,
        display: Rect,
    ) -> (r: bool)
        requires
            requests_inside(requests@),
            index < requests.len(),
            view.inside_limit(),
            display.inside(1),
        ensures
            r == capture_due_at(
                self.cache@,
                requests@,
                index as int,
                *view,
                composition.sync_captures < 4,
                display,
            ),
    {
        assert(requests@[index as int].inside_limit());
        wants_spawn_capture(
            &requests[index],
            view,
            strip_travel(requests, index, display),
            self.usable_picture(requests[index].window),
            composition.budget_left(),
            display,
        )
    }

    /// Composes the next request of a pass. `view` is what the window server answers about its window,
    /// `capture` what capturing its spawn frame gave where that was due. A capture that is drawn is
    /// cached.
    pub fn compose_next(
        &mut self,
        composition: &mut Composition,
        requests: &Vec<AnimationRequest>,
        index: usize,
        view: &ServerView,
        capture: Option<WindowSnapshot>,
        focus: Option<WindowId>,
        display: Rect,
    )
        requires
            old(self).wf(),
            old(composition).inside_limit(),
            old(composition).offscreen <= index,
            old(composition).skipped <= index,
            old(composition).sync_captures <= 4,
            requests_inside(requests@),
            index < requests.len(),
            view.inside_limit(),
            display.inside(1),
        ensures
            final(self).wf(),
            final(composition).inside_limit(),
            final(composition).offscreen <= index + 1,
            final(composition).skipped <= index + 1,
            final(composition).sync_captures <= 4,
            ({
                let budget_left = old(composition).sync_captures < 4;
                let request = requests@[index as int];
                let outcome = outcome_at(
                    old(self).cache@,
                    requests@,
                    index as int,
                    *view,
                    capture,
                    budget_left,
                    focus,
                    display,
                );
                &&& takes_in(
                    *old(composition),
                    *final(composition),
                    request,
                    usable_in(old(self).cache@, request.window),
                    outcome,
                )
                &&& final(composition).sync_captures == old(composition).sync_captures + (
                if capture_due_at(
                    old(self).cache@,
                    requests@,
                    index as int,
                    *view,
                    budget_left,
                    display,
                ) {
                    1int
                } else {
                    0int
                })
                &&& final(self).cache@ == (match outcome {
                    Composed::Spawned { tile, from, to, standing } => old(self).cache@.insert(
                        request.window,
                        after_insert(held_for(old(self).cache@, request.window), tile.snapshot),
                    ),
                    _ => old(self).cache@,
                })
            }),
            accounted(*final(composition)) == accounted(*old(composition)) + 1,
            *final(self) == (FlightEngine { cache: final(self).cache, ..*old(self) }),
    {
        assert(requests@[index as int].inside_limit());
        let request: AnimationRequest = requests[index];
        let travel: Option<Point> = strip_travel(requests, index, display);
        let cached: Option<WindowSnapshot> = self.usable_picture(request.window);
        let budget_left: bool = composition.budget_left();
        let captured: bool = wants_spawn_capture(
            &request,
            view,
            travel,
            cached,
            budget_left,
            display,
        );
        let outcome: Composed = compose_request(
            &request,
            view,
            travel,
            cached,
            capture,
            budget_left,
            focus,
            display,
        );
        if let Composed::Spawned { tile, from: _, to: _, standing: _ } = outcome {
            self.cache.insert(request.window, tile.snapshot);
        }
        composition.take(&request, cached, captured, outcome);
    }

    /// The borders of a pass: everything the engine manages is excluded, not only the pass's own
    /// windows, since parked windows share a frame. `visible` is what the window server lists on the
    /// display, `pass` the window server numbers of the pass.
    pub fn companions(
        &self,
        anchors: &Vec<Anchor>,
        visible: &Vec<(WindowServerId, Rect)>,
        pass: &Vec<u32>,
    ) -> (r: Companions)
        requires
            self.wf(),
            crate::flight::compose::anchors_inside(anchors@),
            listing_inside(visible@),
        ensures
            self.display is None || anchors@.len() == 0 ==> r.tiles@.len() == 0
                && r.targets@.len() == 0 && r.missing@.len() == 0,
            self.display is Some && anchors@.len() > 0 ==> exists|ids: Seq<u32>|
                {
                    &&& forall|id: u32| #[trigger]
                        ids.contains(id) <==> managed(
                            pass@,
                            listed_windows(self.cache.listing()),
                            owed_windows(*self),
                            id,
                        )
                    &&& #[trigger] borders(
                        r,
                        anchors@,
                        unmanaged(visible@, ids),
                        usable_entries(self.cache.listing()),
                        (self.display->0).frame,
                    )
                },
    {
        match self.display {
            Some(display) => {
                if anchors.len() > 0 {
                    let entries: &Vec<(WindowId, WindowSnapshot)> = self.cache.iter();
                    let mut cached: Vec<WindowId> = Vec::new();
                    let mut usable: Vec<(WindowId, WindowSnapshot)> = Vec::new();
                    let mut i: usize = 0;
                    while i < entries.len()
                        invariant
                            i <= entries.len(),
                            cached@ == listed_windows(entries@.take(i as int)),
                            usable@ == usable_entries(entries@.take(i as int)),
                        decreases entries.len() - i,
                    {
                        assert(entries@.take(i + 1).drop_last() == entries@.take(i as int));
                        let entry: (WindowId, WindowSnapshot) = entries[i];
                        cached.push(entry.0);
                        if entry.1.is_usable() {
                            usable.push(entry);
                        }
                        i += 1;
                        assert(cached@ =~= listed_windows(entries@.take(i as int)));
                    }
                    assert(entries@.take(entries@.len() as int) == entries@);
                    let mut owed: Vec<WindowId> = windows_of_targets(&self.deferred_warm);
                    if let Some(after) = &self.after_flight {
                        append(&mut owed, &windows_of_targets(&after.targets));
                    }
                    assert(owed@ =~= owed_windows(*self));
                    let ids: Vec<u32> = managed_server_ids(pass, &cached, &owed);
                    let candidates: Vec<(WindowServerId, Rect)> = companion_candidates(
                        visible,
                        &ids,
                    );
                    let r: Companions = companion_tiles(
                        anchors,
                        &candidates,
                        &usable,
                        display.frame,
                    );
                    assert(borders(
                        r,
                        anchors@,
                        unmanaged(visible@, ids@),
                        usable_entries(self.cache.listing()),
                        display.frame,
                    ));
                    return r;
                }
            },
            None => {},
        }
        Companions { tiles: Vec::new(), targets: Vec::new(), missing: Vec::new() }
    }

    /// Captures for windows that had no picture at composition: requested now at frame zero, put off
    /// while a flight is up. Returns the targets to request now.
    pub fn route_captures(&mut self, needs_capture: &Vec<SnapshotTarget>) -> (r: Vec<
        SnapshotTarget,
    >)
        ensures
            ({
                let now = allows(phase_with(old(self).running), CaptureKind::NeedsCapture);
                &&& r@ == (if now {
                    needs_capture@
                } else {
                    Seq::empty()
                })
                &&& final(self).deferred_warm@ == (if now {
                    old(self).deferred_warm@
                } else {
                    upserted_all(old(self).deferred_warm@, needs_capture@)
                })
            }),
            *final(self) == (FlightEngine {
                deferred_warm: final(self).deferred_warm,
                ..*old(self)
            }),
    {
        if capture_work_allowed(self.phase(), CaptureKind::NeedsCapture) {
            copied(needs_capture)
        } else {
            defer_warm(&mut self.deferred_warm, needs_capture);
            Vec::new()
        }
    }

    /// Remembers what a strip movement asks captures for, its borders included, so a window with no
    /// picture is still warmed.
    pub fn remember_surface(&mut self, windows: &Vec<SurfaceWindow>, borders: &Companions)
        ensures
            final(self).last_animated@ == surface_targets(windows@) + borders.targets@,
            *final(self) == (FlightEngine {
                last_animated: final(self).last_animated,
                ..*old(self)
            }),
    {
        let mut animated: Vec<SnapshotTarget> = surface_animated(windows);
        append(&mut animated, &borders.targets);
        self.last_animated = animated;
    }

    /// Judges a composed layout pass: `tiles` are its tiles, borders included, `borders` the targets
    /// of the borders. A pass in which nothing drawable moves is placed at once, unless a flight is up
    /// for it to join.
    pub fn judge_pass(
        &mut self,
        requests: &Vec<AnimationRequest>,
        tiles: &Vec<OverlayTile>,
        borders: &Vec<SnapshotTarget>,
        now: u64,
    ) -> (r: PassVerdict)
        requires
            old(self).wf(),
            requests_inside(requests@),
        ensures
            final(self).wf(),
            ({
                let flies = any_moves(tiles@) || old(self).running is Some;
                let animated = animated_targets(requests@, borders@);
                &&& r matches PassVerdict::Fly(frames) ==> {
                    &&& flies
                    &&& frames@ == moving_frames(requests@)
                    &&& final(self).last_animated@ == animated
                }
                &&& r matches PassVerdict::Grounded(frames, captures) ==> {
                    &&& !flies
                    &&& frames@ == moving_frames(requests@)
                    &&& captures@ == wanted_of(old(self).cache@, animated, now)
                    &&& final(self).last_animated@.len() == 0
                }
            }),
            *final(self) == (FlightEngine {
                last_animated: final(self).last_animated,
                ..*old(self)
            }),
    {
        let frames: Vec<(WindowId, Rect)> = final_frames_of(requests);
        let mut animated: Vec<SnapshotTarget> = request_targets(requests);
        append(&mut animated, borders);
        assert(animated@ =~= animated_targets(requests@, borders@));
        if worth_flying(moving_drawable(tiles), self.running.is_some()) {
            self.last_animated = animated;
            return PassVerdict::Fly(frames);
        }
        self.last_animated = Vec::new();
        let captures: Vec<SnapshotTarget> = self.warm_windows(&animated, now);
        PassVerdict::Grounded(frames, captures)
    }

    /// Folds one pass into the running flight: its destinations, holds, entrances and tiles. The plans
    /// are merged next, by whoever knows what is presented. `None` without a flight.
    pub fn merge_group(&mut self, group: &Group, now: u64) -> (r: Option<Merge>)
        requires
            old(self).wf(),
            group.wf(),
            now + HOLD_CAP <= u64::MAX,
        ensures
            final(self).wf(),
            r is Some <==> old(self).running is Some,
            r is None ==> *final(self) == *old(self),
            r matches Some(merge) ==> {
                let before = old(self).running->0;
                &&& final(self).running is Some
                &&& folded(
                    before,
                    final(self).running->0,
                    *group,
                    match old(self).display {
                        Some(display) => Some(display.frame),
                        None => None,
                    },
                    now,
                )
                &&& merge.in_flight == (before.started is Some)
                &&& merge.frames_changed == frames_change(
                    before.final_frames@,
                    group.final_frames@,
                )
                &&& merge.focus_changed == (group.focus is Some && group.focus != before.focus)
                &&& merge.hold_frames is Some <==> before.started is None && group.awaiting@.len()
                    > 0
                &&& merge.hold_frames matches Some(frames) ==> frames@ == (
                final(self).running->0).final_frames@
                &&& *final(self) == (FlightEngine { running: final(self).running, ..*old(self) })
            },
    {
        let display: Option<Rect> = match self.display {
            Some(display) => Some(display.frame),
            None => None,
        };
        match &mut self.running {
            None => None,
            Some(flight) => {
                let in_flight: bool = flight.started.is_some();
                // A resize joining mid-flight needs the earlier apply point just as much.
                if group.apply_at < flight.apply_at {
                    flight.apply_at = group.apply_at;
                }
                add_all(&mut flight.entrances, &group.entrances);
                if let Some(frame) = display {
                    let _moved: usize = retarget_entrances(
                        &mut flight.entrances,
                        &group.final_frames,
                        frame,
                    );
                }
                // Merged before the hold reads them, so a held merge requests this pass's frames.
                let frames_changed: bool = merge_final_frames(
                    &mut flight.final_frames,
                    &group.final_frames,
                );
                let hold_frames: Option<Vec<(WindowId, Rect)>> = flight.extend_hold(
                    &group.awaiting,
                    in_flight,
                    group.duration,
                    now,
                );
                let focus_before: Option<WindowId> = flight.focus;
                let focus_changed: bool = match (group.focus, focus_before) {
                    (Some(next), Some(then)) => next != then,
                    (Some(_), None) => true,
                    _ => false,
                };
                let _outcomes = flight.merge_pass(&group.tiles, group.focus);
                Some(Merge { in_flight, hold_frames, frames_changed, focus_changed })
            },
        }
    }

    /// Puts a moving flight on its merged plan. When anything moves elsewhere the clock starts again,
    /// so placement and teardown cover the new legs.
    pub fn replan(
        &mut self,
        merged: FlightPlan,
        changed: bool,
        frames_changed: bool,
        duration: u64,
        now: u64,
    )
        requires
            old(self).wf(),
            merged.inside_limit(),
        ensures
            final(self).wf(),
            old(self).running is None ==> *final(self) == *old(self),
            old(self).running matches Some(before) ==> final(self).running is Some && replanned(
                before,
                final(self).running->0,
                merged,
                changed,
                frames_changed,
                duration,
                now,
            ),
            *final(self) == (FlightEngine { running: final(self).running, ..*old(self) }),
    {
        match &mut self.running {
            None => {},
            Some(flight) => {
                flight.plan = merged;
                sync_tiles_to_plan(&mut flight.tiles, &flight.plan);
                if changed {
                    flight.started = Some(now);
                    flight.duration = duration;
                }
                flight.absorb_in_flight_change(changed, frames_changed);
            },
        }
    }

    /// Frame zero again, for a flight still collecting passes: the plan rebuilt from its tiles takes
    /// the old one's place.
    pub fn recompose(&mut self, rebuilt: FlightPlan)
        requires
            old(self).wf(),
        ensures
            final(self).wf(),
            old(self).running is None ==> *final(self) == *old(self),
            old(self).running matches Some(before) ==> *final(self) == (FlightEngine {
                running: Some(RunningAnimation { plan: rebuilt, ..before }),
                ..*old(self)
            }),
    {
        match &mut self.running {
            None => {},
            Some(flight) => {
                flight.plan = rebuilt;
            },
        }
    }

    /// What is due once a pass was folded in. In flight a newcomer's slot goes out now and every grow
    /// is chased, though it cannot hold. Before the flight moves, a held merge places every frame; any
    /// other sends again the frames that changed under it, then the newcomers' slots.
    pub fn after_merge(&self, group: &Group, merge: &Merge) -> (r: FollowUp)
        requires
            self.running is Some,
            merge.in_flight ==> merge.hold_frames is None,
        ensures
            ({
                let flight = self.running->0;
                let held = merge.hold_frames is Some;
                &&& r.place@ == (if held {
                    (merge.hold_frames->0)@
                } else if !merge.in_flight && flight.frames_applied && merge.frames_changed {
                    flight.final_frames@
                } else {
                    Seq::empty()
                })
                &&& r.then_place@ == (if held {
                    Seq::empty()
                } else {
                    group.entrance_frames@
                })
                &&& r.chase@ == (if held || merge.in_flight {
                    added_all(group.awaiting@, group.chase@)
                } else {
                    group.chase@
                })
            }),
    {
        let none: Vec<(WindowId, Rect)> = Vec::new();
        let (_, chase_set, _): (bool, Vec<(WindowId, Size)>, Vec<(WindowId, Rect)>) =
            frame_zero_work(&group.awaiting, &group.chase, &none, &none);
        match &merge.hold_frames {
            Some(frames) => FollowUp {
                place: copied(frames),
                then_place: Vec::new(),
                chase: chase_set,
            },
            None => {
                if merge.in_flight {
                    return FollowUp {
                        place: Vec::new(),
                        then_place: copied(&group.entrance_frames),
                        chase: chase_set,
                    };
                }
                let mut place: Vec<(WindowId, Rect)> = Vec::new();
                if let Some(flight) = &self.running {
                    if let Some(frames) = reapply_set(
                        flight.frames_applied,
                        false,
                        merge.frames_changed,
                        &flight.final_frames,
                    ) {
                        place = frames;
                    }
                }
                FollowUp {
                    place,
                    then_place: copied(&group.entrance_frames),
                    chase: copied(&group.chase),
                }
            },
        }
    }

    /// Begins a fresh flight at frame zero, or grounds a group with nothing to draw. `clock` says
    /// whether ticks could be set up: without them the flight counts as started and is ended at once
    /// by its owner.
    pub fn begin_group(&mut self, group: Group, plan: FlightPlan, clock: bool, now: u64) -> (r:
        Begun)
        requires
            old(self).wf(),
            old(self).running is None,
            group.wf(),
            now + HOLD_CAP <= u64::MAX,
        ensures
            final(self).wf(),
            r matches Begun::Grounded(frames, captures) ==> {
                &&& group.tiles@.len() == 0
                &&& frames@ == group.final_frames@
                &&& captures@ == wanted_of(old(self).cache@, old(self).last_animated@, now)
                &&& final(self).last_animated@.len() == 0
                &&& *final(self) == (FlightEngine {
                    last_animated: final(self).last_animated,
                    ..*old(self)
                })
            },
            r matches Begun::Up(due, start) ==> {
                &&& group.tiles@.len() > 0
                &&& due.place@ == (if group.awaiting@.len() > 0 {
                    group.final_frames@
                } else {
                    group.entrance_frames@
                })
                &&& due.then_place@.len() == 0
                &&& due.chase@ == added_all(group.awaiting@, group.chase@)
                &&& final(self).running is Some
                &&& exists|flight: RunningAnimation| #[trigger]
                    fresh_flight(flight, group, plan, now) && flight.started is None && if !clock {
                        &&& start == Start::Moving(0)
                        &&& final(self).running->0 == (RunningAnimation {
                            started: Some(now),
                            ..flight
                        })
                        &&& final(self).coalesce == old(self).coalesce
                    } else if group.start == GroupStart::Immediate {
                        &&& start == started_at(flight, now)
                        &&& starts_moving(flight, final(self).running->0, now)
                        &&& final(self).coalesce == (match start {
                            Start::Wait(wait) => Some(wait),
                            _ => None,
                        })
                    } else {
                        &&& start == Start::Wait(COALESCE_WINDOW)
                        &&& final(self).running->0 == flight
                        &&& final(self).coalesce == Some(COALESCE_WINDOW)
                    }
                &&& *final(self) == (FlightEngine {
                    running: final(self).running,
                    coalesce: final(self).coalesce,
                    quiet: false,
                    ..*old(self)
                })
            },
    {
        if group.tiles.len() == 0 {
            let targets: Vec<SnapshotTarget> = copied(&self.last_animated);
            self.last_animated = Vec::new();
            let captures: Vec<SnapshotTarget> = self.warm_windows(&targets, now);
            return Begun::Grounded(group.final_frames, captures);
        }
        let ghost asked = group;
        // A flight beginning inside the quiet period carries the owed captures to its own lift.
        self.quiet = false;
        let mut tiles: Vec<OverlayTile> = group.tiles;
        restack(&mut tiles, group.focus);
        let (holding, chase, place): (bool, Vec<(WindowId, Size)>, Vec<(WindowId, Rect)>) =
            frame_zero_work(
            &group.awaiting,
            &group.chase,
            &group.final_frames,
            &group.entrance_frames,
        );
        let hold_deadline: Option<u64> = if holding {
            Some(now + reveal_hold_limit(group.duration))
        } else {
            None
        };
        let flight: RunningAnimation = RunningAnimation {
            tiles,
            final_frames: group.final_frames,
            frames_applied: holding,
            started: None,
            duration: group.duration,
            apply_at: group.apply_at,
            entrances: group.entrances,
            awaiting: group.awaiting,
            hold_deadline,
            destination_refreshed: false,
            refresh_targets: Vec::new(),
            harvested: Vec::new(),
            focus: group.focus,
            plan,
        };
        let ghost fresh = flight;
        assert(fresh_flight(fresh, asked, plan, now));
        let due: FollowUp = FollowUp { place, then_place: Vec::new(), chase };
        self.running = Some(flight);
        if !clock {
            if let Some(up) = &mut self.running {
                up.started = Some(now);
            }
            return Begun::Up(due, Start::Moving(0));
        }
        match group.start {
            GroupStart::Immediate => {
                let start: Start = self.start_moving(now);
                Begun::Up(due, start)
            },
            GroupStart::Coalesced => {
                self.coalesce = Some(COALESCE_WINDOW);
                Begun::Up(due, Start::Wait(COALESCE_WINDOW))
            },
        }
    }
}

/// `companions` are the borders found among `candidates`.
pub open spec fn borders(
    companions: Companions,
    anchors: Seq<Anchor>,
    candidates: Seq<(WindowServerId, Rect)>,
    pictures: Seq<(WindowId, WindowSnapshot)>,
    display: Rect,
) -> bool {
    let all = found(anchors, candidates, pictures, display);
    companions.tiles@ == all.tiles && companions.targets@ == all.targets && companions.missing@
        == all.missing
}

/// A pass with holds can only extend a hold: once a flight moves, folding a pass in leaves its
/// holds, its deadline and its clock alone.
pub proof fn a_hold_never_stops_a_flight_in_motion(
    before: RunningAnimation,
    after: RunningAnimation,
    group: Group,
    display: Option<Rect>,
    now: u64,
)
    requires
        before.started is Some,
        folded(before, after, group, display, now),
    ensures
        after.started == before.started,
        after.awaiting@ == before.awaiting@,
        after.hold_deadline == before.hold_deadline,
        after.frames_applied == before.frames_applied,
{
}

/// A merge that moves nothing and changes no destination leaves the clock and the placed frames
/// alone, so rapid presses neither restart nor extend a flight.
pub proof fn a_redundant_merge_restarts_nothing(
    before: RunningAnimation,
    after: RunningAnimation,
    merged: FlightPlan,
    duration: u64,
    now: u64,
)
    requires
        replanned(before, after, merged, false, false, duration, now),
    ensures
        after.started == before.started,
        after.duration == before.duration,
        after.frames_applied == before.frames_applied,
{
}

/// A fresh flight that waits for pictures has placed its frames already, so its apps can render; one
/// that waits for nothing has not.
pub proof fn a_fresh_flight_holds_exactly_with_its_frames_out(
    flight: RunningAnimation,
    group: Group,
    plan: FlightPlan,
    now: u64,
)
    requires
        fresh_flight(flight, group, plan, now),
        flight.started is None,
    ensures
        flight.frames_applied <==> flight.phase_of()
            == crate::flight::decision::FlightPhase::Holding,
        flight.hold_deadline is Some <==> flight.awaiting@.len() > 0,
{
}

/// What a pass asks captures for: first its own windows, in order and at the sizes they are going to
/// have, then its borders as they are. A strip movement asks for its windows at the sizes they have.
pub proof fn a_pass_asks_for_every_window_of_its_own(
    requests: Seq<AnimationRequest>,
    companions: Seq<SnapshotTarget>,
    windows: Seq<SurfaceWindow>,
    i: int,
)
    ensures
        animated_targets(requests, companions).len() == requests.len() + companions.len(),
        0 <= i < requests.len() ==> {
            let target = animated_targets(requests, companions)[i];
            target.window == requests[i].window && target.server_id == requests[i].server_id
                && target.size == requests[i].to.size
        },
        0 <= i < companions.len() ==> animated_targets(requests, companions)[requests.len() + i]
            == companions[i],
        surface_targets(windows).len() == windows.len(),
        0 <= i < windows.len() ==> {
            let target = surface_targets(windows)[i];
            target.window == windows[i].window && target.server_id == windows[i].server_id
                && target.size == windows[i].frame.size
        },
{
}

/// A layout pass waits to be joined by others and carries on everything composed for it; it places
/// its windows halfway when one resizes, later when none does.
pub proof fn a_layout_pass_carries_on_what_was_composed(
    pass: Composition,
    borders: Companions,
    final_frames: Vec<(WindowId, Rect)>,
    requests: Vec<AnimationRequest>,
    focus: Option<WindowId>,
    duration: u64,
    group: Group,
    i: int,
)
    requires
        call_ensures(
            layout_group,
            (pass, &borders, final_frames, &requests, focus, duration),
            group,
        ),
    ensures
        group.start == GroupStart::Coalesced,
        group.tiles@.len() == pass.tiles@.len() + borders.tiles@.len(),
        0 <= i < pass.tiles@.len() ==> group.tiles@[i] == pass.tiles@[i],
        0 <= i < borders.tiles@.len() ==> group.tiles@[pass.tiles@.len() + i] == borders.tiles@[i],
        group.final_frames@ == final_frames@,
        group.entrances@ == pass.entrances@,
        group.awaiting@ == pass.awaiting@,
        group.chase@ == pass.chase@,
        group.entrance_frames@ == pass.entrance_frames@,
        group.focus == focus && group.duration == duration,
        0 <= i < requests@.len() && crate::fit::resizes(requests@[i].from.size, requests@[i].to.size)
            ==> 2 * group.apply_at == 100,
        (forall|j: int|
            0 <= j < requests@.len() ==> !crate::fit::resizes(
                (#[trigger] requests@[j]).from.size,
                requests@[j].to.size,
            )) ==> 4 * group.apply_at == 300,
{
}

/// A strip movement starts at once, holds for nothing and places its windows at frame zero; the
/// windows it draws are those of the strip with a tile that is no border's.
pub proof fn a_strip_movement_holds_for_nothing(
    pass: SurfaceComposition,
    windows: Vec<SurfaceWindow>,
    borders: Companions,
    final_frames: Vec<(WindowId, Rect)>,
    focus: Option<WindowId>,
    duration: u64,
    made: (Group, Vec<SurfaceWindow>),
    window: SurfaceWindow,
)
    requires
        call_ensures(
            surface_group,
            (pass, &windows, &borders, final_frames, focus, duration),
            made,
        ),
    ensures
        made.0.start == GroupStart::Immediate && made.0.apply_at == 0,
        made.0.awaiting@.len() == 0 && made.0.entrances@.len() == 0 && made.0.chase@.len() == 0
            && made.0.entrance_frames@.len() == 0,
        made.0.final_frames@ == final_frames@,
        made.0.focus == focus && made.0.duration == duration,
        made.0.tiles@ == pass.tiles@ + borders.tiles@,
        made.1@.contains(window) <==> windows@.contains(window) && exists|i: int|
            0 <= i < made.0.tiles@.len() && (#[trigger] made.0.tiles@[i]).window == window.window
                && !made.0.tiles@[i].companion,
{
    a_drawn_window_has_a_tile(windows@, made.0.tiles@, window);
}

proof fn a_drawn_window_has_a_tile(
    windows: Seq<SurfaceWindow>,
    tiles: Seq<OverlayTile>,
    window: SurfaceWindow,
)
    ensures
        drawn_windows(windows, tiles).contains(window) <==> windows.contains(window) && is_drawn(
            tiles,
            window.window,
        ),
    decreases windows.len(),
{
    if windows.len() > 0 {
        let rest = windows.drop_last();
        let last = windows.last();
        a_drawn_window_has_a_tile(rest, tiles, window);
        let before = drawn_windows(rest, tiles);
        assert(windows.contains(window) <==> rest.contains(window) || window == last) by {
            if rest.contains(window) {
                let i = choose|i: int| 0 <= i < rest.len() && rest[i] == window;
                assert(windows[i] == window);
            }
            assert(windows[windows.len() - 1] == last);
            if windows.contains(window) && window != last {
                let i = choose|i: int| 0 <= i < windows.len() && windows[i] == window;
                assert(rest[i] == window);
            }
        }
        assert(before.push(last).contains(window) <==> before.contains(window) || window == last) by {
            if before.contains(window) {
                let i = choose|i: int| 0 <= i < before.len() && before[i] == window;
                assert(before.push(last)[i] == window);
            }
            assert(before.push(last)[before.len() as int] == last);
        }
    }
}

/// The pictures borders may be drawn from are the usable ones of the cache, in its order.
pub proof fn a_border_is_drawn_from_a_usable_picture(
    listing: Seq<(WindowId, WindowSnapshot)>,
    entry: (WindowId, WindowSnapshot),
)
    ensures
        usable_entries(listing).contains(entry) <==> listing.contains(entry)
            && entry.1.coverage.usable(),
    decreases listing.len(),
{
    if listing.len() > 0 {
        let rest = listing.drop_last();
        let last = listing.last();
        a_border_is_drawn_from_a_usable_picture(rest, entry);
        let before = usable_entries(rest);
        assert(listing.contains(entry) <==> rest.contains(entry) || entry == last) by {
            if rest.contains(entry) {
                let i = choose|i: int| 0 <= i < rest.len() && rest[i] == entry;
                assert(listing[i] == entry);
            }
            assert(listing[listing.len() - 1] == last);
            if listing.contains(entry) && entry != last {
                let i = choose|i: int| 0 <= i < listing.len() && listing[i] == entry;
                assert(rest[i] == entry);
            }
        }
        assert(before.push(last).contains(entry) <==> before.contains(entry) || entry == last) by {
            if before.contains(entry) {
                let i = choose|i: int| 0 <= i < before.len() && before[i] == entry;
                assert(before.push(last)[i] == entry);
            }
            assert(before.push(last)[before.len() as int] == last);
        }
    }
}

/// A window whose capture is owed is one that was put off or one of the last flights'.
pub proof fn an_owed_window_was_put_off(engine: FlightEngine, i: int)
    ensures
        0 <= i < engine.deferred_warm@.len() ==> owed_windows(engine).contains(
            engine.deferred_warm@[i].window,
        ),
        engine.after_flight matches Some(after) ==> 0 <= i < after.targets@.len() ==> owed_windows(
            engine,
        ).contains(after.targets@[i].window),
        owed_windows(engine).len() == engine.deferred_warm@.len() + (match engine.after_flight {
            Some(after) => after.targets@.len() as int,
            None => 0int,
        }),
{
    let owed = owed_windows(engine);
    if 0 <= i < engine.deferred_warm@.len() {
        assert(owed[i] == engine.deferred_warm@[i].window);
    }
    if let Some(after) = engine.after_flight {
        if 0 <= i < after.targets@.len() {
            assert(owed[engine.deferred_warm@.len() + i] == after.targets@[i].window);
        }
    }
}

/// A pass folded into a flight takes the earlier of the two apply points, its destinations over the
/// flight's, and its focus where it names one; it holds only a flight that stands, and then with the
/// frames out. Its clock, its plan and what it owes stay.
pub proof fn a_folded_pass_takes_what_it_names(
    before: RunningAnimation,
    after: RunningAnimation,
    group: Group,
    display: Option<Rect>,
    now: u64,
    i: int,
)
    requires
        folded(before, after, group, display, now),
        crate::keyed::one_each(before.final_frames@),
        crate::keyed::one_each(group.final_frames@),
        0 <= i < group.final_frames@.len(),
    ensures
        after.apply_at <= before.apply_at && after.apply_at <= group.apply_at,
        after.apply_at == before.apply_at || after.apply_at == group.apply_at,
        crate::keyed::lookup(after.final_frames@, group.final_frames@[i].0) == Some(
            group.final_frames@[i],
        ),
        group.focus is Some ==> after.focus == group.focus,
        group.focus is None ==> after.focus == before.focus,
        before.started is None && group.awaiting@.len() > 0 ==> after.frames_applied
            && after.hold_deadline is Some,
        before.hold_deadline is Some ==> after.hold_deadline == before.hold_deadline,
        before.hold_deadline is None && before.started is None && group.awaiting@.len() > 0
            ==> after.hold_deadline == Some((now + 300_000_000) as u64),
        group.awaiting@.len() == 0 ==> after.awaiting@ == before.awaiting@ && after.hold_deadline
            == before.hold_deadline && after.frames_applied == before.frames_applied,
        after.started == before.started && after.duration == before.duration,
        after.plan == before.plan && after.harvested == before.harvested,
        after.entrances@.len() == added_all(before.entrances@, group.entrances@).len(),
{
    crate::flight::decision::the_latest_frame_wins(
        before.final_frames@,
        group.final_frames@,
        i,
    );
}

/// A flight put on another plan follows it tile by tile; where something moves elsewhere its clock
/// starts anew for the given time and its frames are owed again.
pub proof fn a_replanned_flight_follows_the_plan(
    before: RunningAnimation,
    after: RunningAnimation,
    merged: FlightPlan,
    changed: bool,
    frames_changed: bool,
    duration: u64,
    now: u64,
    i: int,
)
    requires
        replanned(before, after, merged, changed, frames_changed, duration, now),
        0 <= i < before.tiles@.len(),
    ensures
        after.tiles@.len() == before.tiles@.len(),
        after.tiles@[i].window == before.tiles@[i].window,
        after.tiles@[i].from == before.tiles@[i].from,
        merged.destination(before.tiles@[i].window) matches Some(to) ==> after.tiles@[i].to == to,
        merged.destination(before.tiles@[i].window) is None ==> after.tiles@[i] == before.tiles@[i],
        after.plan == merged,
        changed ==> after.started == Some(now) && after.duration == duration
            && !after.frames_applied,
        !changed ==> after.started == before.started && after.duration == before.duration,
        frames_changed ==> !after.frames_applied,
        !changed && !frames_changed ==> after.frames_applied == before.frames_applied,
        after.final_frames == before.final_frames && after.awaiting == before.awaiting,
{
}

/// A fresh flight is its group: the tiles at their places, the group's frames, holds and clock, and
/// nothing refreshed or harvested yet. It waits 300 milliseconds at the most.
pub proof fn a_fresh_flight_is_its_group(
    flight: RunningAnimation,
    group: Group,
    plan: FlightPlan,
    now: u64,
    i: int,
)
    requires
        fresh_flight(flight, group, plan, now),
        0 <= i < group.tiles@.len(),
    ensures
        flight.tiles@.len() == group.tiles@.len(),
        flight.tiles@[i].window == group.tiles@[i].window,
        flight.tiles@[i].from == group.tiles@[i].from && flight.tiles@[i].to == group.tiles@[i].to,
        flight.tiles@[i].snapshot == group.tiles@[i].snapshot,
        flight.final_frames@ == group.final_frames@ && flight.duration == group.duration,
        flight.apply_at == group.apply_at && flight.focus == group.focus && flight.plan == plan,
        flight.entrances@ == group.entrances@ && flight.awaiting@ == group.awaiting@,
        group.awaiting@.len() > 0 ==> flight.frames_applied && flight.hold_deadline == Some(
            (now + 300_000_000) as u64,
        ),
        group.awaiting@.len() == 0 ==> !flight.frames_applied && flight.hold_deadline is None,
        !flight.destination_refreshed && flight.refresh_targets@.len() == 0
            && flight.harvested@.len() == 0,
{
    crate::flight::stack::restacking_changes_depths_alone(group.tiles@, group.focus, i);
}

/// A window's picture is used when it is cached and usable, and then that very picture.
pub proof fn only_a_usable_picture_is_used(
    cache: Map<WindowId, WindowSnapshot>,
    window: WindowId,
)
    ensures
        usable_in(cache, window) is Some <==> cache.dom().contains(window)
            && cache[window].coverage.usable(),
        usable_in(cache, window) matches Some(picture) ==> picture == cache[window],
{
}

/// A spawn frame is captured only for a window without a usable picture that the server shows on the
/// display with an extent, while budget is left; such a window worth drawing always is.
pub proof fn a_spawn_frame_is_captured_where_it_shows(
    cache: Map<WindowId, WindowSnapshot>,
    requests: Seq<AnimationRequest>,
    index: int,
    view: ServerView,
    budget_left: bool,
    display: Rect,
)
    requires
        0 <= index < requests.len(),
    ensures
        ({
            let outcome = outcome_at(
                cache,
                requests,
                index,
                view,
                None,
                budget_left,
                None,
                display,
            );
            let shown = view.frame is Some && !crate::geometry::off_screen(display, view.frame->0)
                && view.frame->0.size.width > 0 && view.frame->0.size.height > 0;
            capture_due_at(cache, requests, index, view, budget_left, display) <==> outcome is Reserved
                && shown && budget_left
        }),
{
}

/// Composing a request accounts for it once: what is drawn of a newly opened window ends, seen from
/// the display, in its whole slot, and its capture is kept; no other window's picture changes.
pub proof fn a_composed_request_is_accounted_for(
    engine: &mut FlightEngine,
    composition: &mut Composition,
    requests: Vec<AnimationRequest>,
    index: usize,
    view: ServerView,
    capture: Option<WindowSnapshot>,
    focus: Option<WindowId>,
    display: Rect,
    other: WindowId,
    done: (),
)
    requires
        call_ensures(
            FlightEngine::compose_next,
            (engine, composition, &requests, index, &view, capture, focus, display),
            done,
        ),
        old(engine).wf(),
        requests_inside(requests@),
        index < requests@.len(),
        view.inside_limit(),
        display.inside(1),
        old(composition).inside_limit(),
        old(composition).offscreen <= index,
        old(composition).skipped <= index,
        old(composition).sync_captures <= 4,
    ensures
        ({
            let request = requests@[index as int];
            let cached = usable_in(old(engine).cache@, request.window);
            &&& accounted(*final(composition)) == accounted(*old(composition)) + 1
            &&& final(composition).tiles@.len() > old(composition).tiles@.len() ==> {
                let tile = final(composition).tiles@.last();
                &&& tile.window == request.window
                &&& cached is Some ==> tile.snapshot == cached->0
                &&& cached is None ==> Some(tile.snapshot) == capture
                    && crate::flight::compose::stands_at(tile.to, display, request.to)
                    && view.frame is Some && crate::flight::compose::stands_at(
                    tile.from,
                    display,
                    view.frame->0,
                ) && final(engine).cache@.dom().contains(request.window)
            }
            &&& cached is Some ==> final(engine).cache@ == old(engine).cache@
            &&& other != request.window ==> (final(engine).cache@.dom().contains(other) <==> old(engine).cache@.dom().contains(other))
        }),
        final(engine).running == old(engine).running,
{
    let request = requests@[index as int];
    assert(request.inside_limit());
    let cached = usable_in(old(engine).cache@, request.window);
    crate::flight::compose::a_spawned_window_flies_to_its_slot(
        request,
        view,
        travel_at(requests@, index as int, display),
        cached,
        capture,
        old(composition).sync_captures < 4,
        focus,
        display,
    );
}

/// Captures of windows without a picture are made at frame zero or without a flight; otherwise they
/// are put off, and none is lost.
pub proof fn a_missing_picture_is_captured_or_owed(
    engine: &mut FlightEngine,
    needs_capture: Vec<SnapshotTarget>,
    now: Vec<SnapshotTarget>,
    i: int,
)
    requires
        call_ensures(FlightEngine::route_captures, (engine, &needs_capture), now),
        0 <= i < needs_capture@.len(),
        crate::keyed::one_each(old(engine).deferred_warm@),
    ensures
        old(engine).running is None ==> now@ == needs_capture@,
        old(engine).running matches Some(flight) ==> {
            &&& flight.started is None && flight.awaiting@.len() == 0 ==> now@ == needs_capture@
            &&& flight.started is Some || flight.awaiting@.len() > 0 ==> now@.len() == 0
                && crate::keyed::listed(final(engine).deferred_warm@, needs_capture@[i].window)
        },
        now@.len() > 0 ==> final(engine).deferred_warm@ == old(engine).deferred_warm@,
{
    crate::keyed::upserting_all_lists_both(
        old(engine).deferred_warm@,
        needs_capture@,
        needs_capture@[i].window,
    );
    assert(crate::keyed::Keyed::key(&needs_capture@[i]) == needs_capture@[i].window);
}

/// What a strip movement asks captures for is remembered, its windows first and its borders behind.
pub proof fn a_strip_movement_is_remembered(
    engine: &mut FlightEngine,
    windows: Vec<SurfaceWindow>,
    borders: Companions,
    done: (),
    i: int,
)
    requires
        call_ensures(FlightEngine::remember_surface, (engine, &windows, &borders), done),
    ensures
        final(engine).last_animated@.len() == windows@.len() + borders.targets@.len(),
        0 <= i < windows@.len() ==> final(engine).last_animated@[i].window == windows@[i].window
            && final(engine).last_animated@[i].server_id == windows@[i].server_id
            && final(engine).last_animated@[i].size == windows@[i].frame.size,
        0 <= i < borders.targets@.len() ==> final(engine).last_animated@[windows@.len() + i]
            == borders.targets@[i],
        final(engine).running == old(engine).running && final(engine).cache == old(engine).cache,
{
}

/// A pass flies when a tile of it moves or a flight is up; either way the frames of all its moving
/// windows are handed on. A pass on the ground is remembered no longer.
pub proof fn a_pass_flies_or_is_placed(
    engine: &mut FlightEngine,
    requests: Vec<AnimationRequest>,
    tiles: Vec<OverlayTile>,
    borders: Vec<SnapshotTarget>,
    now: u64,
    verdict: PassVerdict,
    i: int,
)
    requires
        call_ensures(
            FlightEngine::judge_pass,
            (engine, &requests, &tiles, &borders, now),
            verdict,
        ),
        old(engine).wf(),
        requests_inside(requests@),
        0 <= i < requests@.len(),
    ensures
        ({
            let frames = match verdict {
                PassVerdict::Fly(frames) => frames@,
                PassVerdict::Grounded(frames, _) => frames@,
            };
            &&& verdict is Fly <==> old(engine).running is Some || exists|t: int|
                0 <= t < tiles@.len() && crate::travel::moves(
                    (#[trigger] tiles@[t]).from,
                    tiles@[t].to,
                )
            &&& crate::travel::moves(requests@[i].from, requests@[i].to) ==> frames.contains(
                (requests@[i].window, requests@[i].to),
            )
        }),
        verdict is Fly ==> final(engine).last_animated@.len() == requests@.len() + borders@.len()
            && final(engine).last_animated@[i].window == requests@[i].window
            && final(engine).last_animated@[i].size == requests@[i].to.size,
        verdict is Grounded ==> final(engine).last_animated@.len() == 0,
        final(engine).running == old(engine).running,
{
    crate::flight::compose::a_moving_window_is_placed_at_its_destination(
        requests@,
        Seq::empty(),
        0,
        i,
    );
}

/// What a pass folded in calls for. A held flight places all its frames, and a standing one whose
/// frames are out places them again when they changed; a moving one places none. Newcomers' slots go
/// out unless all frames did. Whatever is chased is chased, and what is awaited too where it is held
/// or moving.
pub proof fn a_merge_calls_for_its_frames(
    engine: FlightEngine,
    group: Group,
    merge: Merge,
    due: FollowUp,
    window: WindowId,
)
    requires
        engine.running is Some,
        merge.in_flight ==> merge.hold_frames is None,
        call_ensures(FlightEngine::after_merge, (&engine, &group, &merge), due),
    ensures
        merge.hold_frames matches Some(frames) ==> due.place@ == frames@ && due.then_place@.len()
            == 0,
        merge.hold_frames is None ==> due.then_place@ == group.entrance_frames@,
        merge.in_flight ==> due.place@.len() == 0,
        merge.hold_frames is None && !merge.in_flight ==> {
            &&& (engine.running->0).frames_applied && merge.frames_changed ==> due.place@ == (
            engine.running->0).final_frames@
            &&& !(engine.running->0).frames_applied || !merge.frames_changed ==> due.place@.len()
                == 0
            &&& due.chase@ == group.chase@
        },
        merge.hold_frames is Some || merge.in_flight ==> {
            &&& crate::keyed::listed(group.awaiting@, window) ==> crate::keyed::lookup(
                due.chase@,
                window,
            ) == crate::keyed::lookup(group.awaiting@, window)
            &&& !crate::keyed::listed(group.awaiting@, window) ==> crate::keyed::lookup(
                due.chase@,
                window,
            ) == crate::keyed::lookup(group.chase@, window)
        },
{
    crate::keyed::the_first_item_added_stays(group.awaiting@, group.chase@, window);
}

/// A group with nothing to draw is placed at once and leaves no flight. Any other is up: a layout pass
/// waits a fortieth of a second to be joined, a strip movement moves at once unless it holds, and
/// without a clock it counts as started.
pub proof fn a_group_begins_as_it_is_meant_to(
    engine: &mut FlightEngine,
    group: Group,
    plan: FlightPlan,
    clock: bool,
    now: u64,
    begun: Begun,
)
    requires
        call_ensures(FlightEngine::begin_group, (engine, group, plan, clock, now), begun),
        old(engine).wf(),
        old(engine).running is None,
        group.wf(),
        now + 300_000_000 <= u64::MAX,
    ensures
        begun is Grounded <==> group.tiles@.len() == 0,
        begun matches Begun::Grounded(frames, _) ==> frames@ == group.final_frames@
            && final(engine).running is None && final(engine).last_animated@.len() == 0,
        begun matches Begun::Up(due, start) ==> {
            let flight = final(engine).running->0;
            &&& final(engine).running is Some && !final(engine).quiet
            &&& flight.tiles@.len() == group.tiles@.len() && flight.final_frames@
                == group.final_frames@
            &&& group.awaiting@.len() > 0 ==> due.place@ == group.final_frames@
            &&& group.awaiting@.len() == 0 ==> due.place@ == group.entrance_frames@
            &&& !clock ==> flight.started == Some(now) && start == Start::Moving(0)
            &&& clock && group.start == GroupStart::Coalesced ==> flight.started is None && start
                == Start::Wait(25_000_000) && final(engine).coalesce == Some(25_000_000u64)
            &&& clock && group.start == GroupStart::Immediate && group.awaiting@.len() == 0
                ==> flight.started == Some(now) && start == Start::Moving(group.duration)
            &&& clock && group.start == GroupStart::Immediate && group.awaiting@.len() > 0
                ==> flight.started is None && start == Start::Wait(300_000_000)
        },
{
    if let Begun::Up(due, start) = begun {
        let flight = choose|flight: RunningAnimation| #[trigger]
            fresh_flight(flight, group, plan, now) && flight.started is None && if !clock {
                &&& start == Start::Moving(0)
                &&& final(engine).running->0 == (RunningAnimation { started: Some(now), ..flight })
                &&& final(engine).coalesce == old(engine).coalesce
            } else if group.start == GroupStart::Immediate {
                &&& start == started_at(flight, now)
                &&& starts_moving(flight, final(engine).running->0, now)
                &&& final(engine).coalesce == (match start {
                    Start::Wait(wait) => Some(wait),
                    _ => None,
                })
            } else {
                &&& start == Start::Wait(COALESCE_WINDOW)
                &&& final(engine).running->0 == flight
                &&& final(engine).coalesce == Some(COALESCE_WINDOW)
            };
        assert(fresh_flight(flight, group, plan, now));
    }
}

/// A flight rebuilt at frame zero changes its plan alone.
pub proof fn a_flight_recomposed_keeps_its_tiles(
    engine: &mut FlightEngine,
    rebuilt: FlightPlan,
    done: (),
)
    requires
        call_ensures(FlightEngine::recompose, (engine, rebuilt), done),
        old(engine).wf(),
    ensures
        old(engine).running is None ==> *final(engine) == *old(engine),
        old(engine).running matches Some(before) ==> {
            let after = final(engine).running->0;
            &&& final(engine).running is Some && after.plan == rebuilt
            &&& after.tiles == before.tiles && after.started == before.started
            &&& after.final_frames == before.final_frames && after.awaiting == before.awaiting
            &&& after.duration == before.duration
        },
{
}

/// A border is never a window of the pass, nor one the cache or the owed captures know of a real
/// process; it is one of those on screen, kept warm at the size it is listed with.
pub proof fn a_border_is_a_window_nobody_manages(
    engine: FlightEngine,
    anchors: Vec<Anchor>,
    visible: Vec<(WindowServerId, Rect)>,
    pass: Vec<u32>,
    found_borders: Companions,
    k: int,
)
    requires
        engine.wf(),
        crate::flight::compose::anchors_inside(anchors@),
        listing_inside(visible@),
        call_ensures(FlightEngine::companions, (&engine, &anchors, &visible, &pass), found_borders),
        0 <= k < found_borders.targets@.len(),
    ensures
        !pass@.contains(found_borders.targets@[k].server_id.0),
        exists|i: int|
            0 <= i < visible@.len() && (#[trigger] visible@[i]).0
                == found_borders.targets@[k].server_id && visible@[i].1.size
                == found_borders.targets@[k].size,
{
    let display = (engine.display->0).frame;
    let cached = listed_windows(engine.cache.listing());
    let pictures = usable_entries(engine.cache.listing());
    let ids = choose|ids: Seq<u32>|
        {
            &&& forall|id: u32| #[trigger]
                ids.contains(id) <==> managed(pass@, cached, owed_windows(engine), id)
            &&& #[trigger] borders(
                found_borders,
                anchors@,
                unmanaged(visible@, ids),
                pictures,
                display,
            )
        };
    let candidates = unmanaged(visible@, ids);
    crate::flight::compose::a_border_found_traces_an_anchor(
        anchors@,
        candidates,
        pictures,
        display,
        k,
    );
    let f = found(anchors@, candidates, pictures, display);
    let i = choose|i: int|
        0 <= i < anchors@.len() && crate::flight::decision::companion(
            (#[trigger] anchors@[i]).actual,
            candidates,
            display,
        ) is Some && (crate::flight::decision::companion(
            anchors@[i].actual,
            candidates,
            display,
        )->0).0 == f.targets[k].server_id && (crate::flight::decision::companion(
            anchors@[i].actual,
            candidates,
            display,
        )->0).1.size == f.targets[k].size;
    let entry = crate::flight::decision::companion(anchors@[i].actual, candidates, display)->0;
    crate::flight::decision::a_border_is_a_candidate_that_traces(
        anchors@[i].actual,
        candidates,
        display,
    );
    assert(candidates.contains(entry));
    crate::flight::compose::a_border_candidate_is_unmanaged(
        visible@,
        Seq::empty(),
        ids,
        entry,
    );
    let v = choose|v: int| 0 <= v < visible@.len() && visible@[v] == entry;
    assert(visible@[v].0 == f.targets[k].server_id);
    assert(!ids.contains(entry.0.0));
    assert(!managed(pass@, cached, owed_windows(engine), entry.0.0));
}

/// Reservations are kept and added to, one per window, and each points at the pass's frame for its
/// window where the pass has one.
pub proof fn a_folded_pass_points_its_entrances(
    before: RunningAnimation,
    after: RunningAnimation,
    group: Group,
    display: Rect,
    now: u64,
    i: int,
)
    requires
        folded(before, after, group, Some(display), now),
        group.wf(),
        display.inside(1),
        0 <= i < after.entrances@.len(),
    ensures
        ({
            let reserved = added_all(before.entrances@, group.entrances@)[i];
            let entrance = after.entrances@[i];
            &&& entrance.window == reserved.window && entrance.floating == reserved.floating
            &&& !crate::keyed::listed(group.final_frames@, entrance.window) ==> entrance == reserved
            &&& crate::keyed::lookup(group.final_frames@, entrance.window) matches Some(entry) ==> {
                &&& -100 < entrance.to.origin.x + display.origin.x - entry.1.origin.x < 100
                &&& -100 < entrance.to.origin.y + display.origin.y - entry.1.origin.y < 100
                &&& -100 < entrance.to.size.width - entry.1.size.width < 100
                &&& -100 < entrance.to.size.height - entry.1.size.height < 100
            }
        }),
{
    let reserved = added_all(before.entrances@, group.entrances@)[i];
    crate::flight::decision::an_entrance_follows_its_window(
        reserved,
        group.final_frames@,
        display,
    );
}

/// What a pass has captured is what had no picture, in order, its borders last; and a capture is due
/// for a request exactly where composing it without one would have to reserve a place for a window the
/// server shows.
pub proof fn a_pass_captures_what_had_no_picture(
    needs_capture: Vec<SnapshotTarget>,
    borders: Companions,
    all: Vec<SnapshotTarget>,
    engine: FlightEngine,
    composition: Composition,
    requests: Vec<AnimationRequest>,
    index: usize,
    view: ServerView,
    display: Rect,
    due: bool,
)
    requires
        call_ensures(pass_captures, (&needs_capture, &borders), all),
        requests_inside(requests@),
        index < requests@.len(),
        view.inside_limit(),
        display.inside(1),
        call_ensures(
            FlightEngine::capture_due,
            (&engine, &composition, &requests, index, &view, display),
            due,
        ),
    ensures
        all@ == needs_capture@ + borders.missing@,
        due ==> composition.sync_captures < 4 && view.frame is Some && view.frame->0.size.width > 0
            && view.frame->0.size.height > 0 && !crate::geometry::off_screen(
            display,
            view.frame->0,
        ) && usable_in(engine.cache@, requests@[index as int].window) is None,
        !due && composition.sync_captures < 4 && view.frame is Some && view.frame->0.size.width > 0
            && view.frame->0.size.height > 0 && !crate::geometry::off_screen(
            display,
            view.frame->0,
        ) && usable_in(engine.cache@, requests@[index as int].window) is None ==> outcome_at(
            engine.cache@,
            requests@,
            index as int,
            view,
            None,
            true,
            None,
            display,
        ) is OffScreen,
{
    a_spawn_frame_is_captured_where_it_shows(
        engine.cache@,
        requests@,
        index as int,
        view,
        composition.sync_captures < 4,
        display,
    );
}

/// Folding a pass into the flight in the air says what came of it: whether the flight moved already,
/// whether a window got another frame or the focus another window, and the frames to place at a hold.
pub proof fn a_fold_says_what_came_of_it(
    engine: &mut FlightEngine,
    group: Group,
    now: u64,
    merge: Option<Merge>,
)
    requires
        call_ensures(FlightEngine::merge_group, (engine, &group, now), merge),
        old(engine).wf(),
        group.wf(),
        now + 300_000_000 <= u64::MAX,
    ensures
        merge is Some <==> old(engine).running is Some,
        merge is None ==> *final(engine) == *old(engine),
        merge matches Some(m) ==> {
            let before = old(engine).running->0;
            let after = final(engine).running->0;
            &&& m.in_flight <==> before.started is Some
            &&& m.frames_changed <==> frames_change(before.final_frames@, group.final_frames@)
            &&& m.focus_changed <==> group.focus is Some && group.focus != before.focus
            &&& m.hold_frames is Some <==> before.started is None && group.awaiting@.len() > 0
            &&& m.hold_frames matches Some(frames) ==> frames@ == after.final_frames@
            &&& after.started == before.started
            &&& after.final_frames@ == upserted_all(before.final_frames@, group.final_frames@)
        },
        final(engine).cache == old(engine).cache,
{
}

/// A moving flight put on another plan starts its clock anew when something moves elsewhere.
pub proof fn a_flight_is_put_on_its_plan(
    engine: &mut FlightEngine,
    merged: FlightPlan,
    changed: bool,
    frames_changed: bool,
    duration: u64,
    now: u64,
    done: (),
)
    requires
        call_ensures(
            FlightEngine::replan,
            (engine, merged, changed, frames_changed, duration, now),
            done,
        ),
        old(engine).wf(),
        merged.inside_limit(),
    ensures
        old(engine).running is None ==> *final(engine) == *old(engine),
        old(engine).running matches Some(before) ==> {
            let after = final(engine).running->0;
            &&& final(engine).running is Some && after.plan == merged
            &&& changed ==> after.started == Some(now) && after.duration == duration
                && !after.frames_applied
            &&& !changed ==> after.started == before.started && after.duration == before.duration
            &&& frames_changed ==> !after.frames_applied
            &&& after.final_frames == before.final_frames
        },
{
}

} // verus!
