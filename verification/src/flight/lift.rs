//! Ticks, the lift, and the work a flight leaves behind.
use vstd::prelude::*;

use crate::fit::{is_backdrop_worth_drawing, spans, spans_display, Extent};
use crate::flight::decision::{
    clock_for_bounce, desktop_render_wanted, finish_harvest_set, focus_ends, handover_report,
    harvest_set, lift_now, misses_over, refresh_requests, refresh_targets, render_wanted,
    requests_for, windows_of, HandoverReport, SnapshotTarget, LIFT_GRACE,
};
use crate::flight::engine::{
    age, first_windows, refreshable, refreshable_tiles, tile_windows, wanted_of, watched,
    windows_of_entries, windows_of_targets, windows_of_tiles, AfterFlight, FlightEngine, QuietWork,
    Tick,
};
use crate::flight::running::RunningAnimation;
use crate::flight::stack::OverlayTile;
use crate::geometry::{greater, Rect, Size};
use crate::ids::{WindowId, WindowServerId};
use crate::keyed::{add_all, added_all, copied, find, listed, Keyed};
use crate::snapshot::WindowSnapshot;
use crate::time::Progress;

verus! {

/// What the destination refresh asks for: the two ends of a focus change that have a tile.
pub open spec fn refresh_due(
    last_focus: Option<WindowId>,
    focus: Option<WindowId>,
    tiles: Seq<OverlayTile>,
) -> Seq<SnapshotTarget> {
    let open_to = refreshable(tiles);
    requests_for(open_to, focus_ends(last_focus, focus, first_windows(open_to)))
}

/// The midpoint refresh is due at `progress`.
pub open spec fn refresh_is_due(flight: RunningAnimation, progress: Progress) -> bool {
    !flight.destination_refreshed && progress.at_least(50) && flight.started is Some
}

/// The frames are due at `progress`.
pub open spec fn frames_are_due(flight: RunningAnimation, progress: Progress) -> bool {
    progress.at_least(flight.apply_at as int) && !flight.frames_applied
}

/// `after` is the flight `before` a tick later.
pub open spec fn ticked(
    before: RunningAnimation,
    after: RunningAnimation,
    last_focus: Option<WindowId>,
    now: u64,
) -> bool {
    let progress = before.progress_at(now);
    let wanted = refresh_due(last_focus, before.focus, before.tiles@);
    &&& after.refresh_targets@ == (if refresh_is_due(before, progress) && wanted.len() > 0 {
        windows_of(wanted)
    } else {
        before.refresh_targets@
    })
    &&& after == (RunningAnimation {
        frames_applied: before.frames_applied || frames_are_due(before, progress),
        destination_refreshed: before.destination_refreshed || refresh_is_due(before, progress),
        refresh_targets: after.refresh_targets,
        ..before
    })
}

proof fn requests_need_wanted(
    tiles: Seq<(WindowId, WindowServerId, Size)>,
    wanted: Seq<WindowId>,
)
    requires
        forall|i: int| 0 <= i < wanted.len() ==> first_windows(tiles).contains(#[trigger] wanted[i]),
    ensures
        requests_for(tiles, wanted).len() == wanted.len(),
    decreases wanted.len(),
{
    if wanted.len() > 0 {
        let rest = wanted.drop_last();
        assert forall|i: int| 0 <= i < rest.len() implies first_windows(tiles).contains(
            #[trigger] rest[i],
        ) by {
            assert(rest[i] == wanted[i]);
        }
        requests_need_wanted(tiles, rest);
        let last = wanted[wanted.len() - 1];
        assert(first_windows(tiles).contains(last));
        let k = choose|k: int|
            0 <= k < first_windows(tiles).len() && first_windows(tiles)[k] == last;
        assert(tiles[k].key() == last);
        assert(listed(tiles, last));
    }
}

/// The overlay may lift at `now`: the clock has run out, and either the tiles are presented at their
/// ends and every real window is near its own, or the grace has run out too.
pub open spec fn lift_due(
    engine: FlightEngine,
    settled: bool,
    actual: Seq<(WindowId, Rect)>,
    now: u64,
) -> bool {
    match engine.running {
        Some(flight) => {
            let progress = flight.progress_at(now);
            let landed = engine.display matches Some(display) ==> misses_over(
                flight.final_frames@,
                tile_windows(flight.tiles@),
                actual,
                display.frame,
                2_000,
            ) == 0;
            &&& flight.started is Some
            &&& progress.at_least(100)
            &&& ((settled && landed) || progress.elapsed > flight.duration + LIFT_GRACE)
        },
        None => false,
    }
}

/// What the capture of the backdrop needs next.
#[derive(Clone, Copy, PartialEq, Eq, Debug)]
pub enum Backdrop {
    /// There is no display to draw on.
    NoDisplay,
    /// The render in hand is drawn.
    Rendered(WindowSnapshot),
    /// No render yet: a composite covers the gap rather than leaving the overlay black.
    Composite,
}

impl FlightEngine {
    /// One tick of a flight. Nothing is drawn here; the tick only paces the mid-flight work.
    pub fn step(&mut self, now: u64) -> (r: Tick)
        requires
            old(self).wf(),
        ensures
            final(self).wf(),
            old(self).running is None ==> *final(self) == *old(self) && r.frames@.len() == 0
                && r.refresh@.len() == 0 && !r.clock_done,
            old(self).running matches Some(flight) ==> {
                let progress = flight.progress_at(now);
                &&& final(self).running is Some
                &&& ticked(flight, final(self).running->0, old(self).last_focus, now)
                &&& r.frames@ == (if frames_are_due(flight, progress) {
                    flight.final_frames@
                } else {
                    Seq::empty()
                })
                &&& r.refresh@ == (if refresh_is_due(flight, progress) {
                    refresh_due(old(self).last_focus, flight.focus, flight.tiles@)
                } else {
                    Seq::empty()
                })
                &&& r.clock_done == (flight.started is Some && progress.at_least(100))
            },
            *final(self) == (FlightEngine { running: final(self).running, ..*old(self) }),
    {
        let last_focus: Option<WindowId> = self.last_focus;
        let mut tick: Tick = Tick { frames: Vec::new(), refresh: Vec::new(), clock_done: false };
        match &mut self.running {
            None => {},
            Some(flight) => {
                let ghost before = *flight;
                let progress: Progress = flight.progress(now);
                if let Some(frames) = flight.frames_due(progress) {
                    tick.frames = frames;
                }
                let refresh_now: bool = flight.take_refresh(progress);
                tick.clock_done = flight.is_done(now);
                if refresh_now {
                    let tiles: Vec<(WindowId, WindowServerId, Size)> = refreshable_tiles(
                        &flight.tiles,
                    );
                    let windows: Vec<WindowId> = windows_of_entries(&tiles);
                    let wanted: Vec<WindowId> = refresh_targets(
                        last_focus,
                        flight.focus,
                        &windows,
                    );
                    let (covered, requests): (Vec<WindowId>, Vec<SnapshotTarget>) =
                        refresh_requests(&tiles, &wanted);
                    proof {
                        assert forall|i: int| 0 <= i < wanted@.len() implies first_windows(
                            tiles@,
                        ).contains(#[trigger] wanted@[i]) by {
                            focus_ends_are_tiles(last_focus, before.focus, windows@, i);
                        }
                        requests_need_wanted(tiles@, wanted@);
                    }
                    if wanted.len() > 0 {
                        flight.refresh_targets = covered;
                    }
                    tick.refresh = requests;
                }
                assert(ticked(before, *flight, last_focus, now));
            },
        }
        tick
    }

    /// The windows whose real frames the owner reads before a lift: those with a tile and a
    /// destination.
    pub fn handover_windows(&self) -> (r: Vec<WindowId>)
        ensures
            r@ == (match self.running {
                Some(flight) => watched(flight.final_frames@, flight.tiles@),
                None => Seq::empty(),
            }),
    {
        let mut out: Vec<WindowId> = Vec::new();
        match &self.running {
            None => {
                assert(out@ =~= Seq::empty());
                out
            },
            Some(flight) => {
                let mut i: usize = 0;
                while i < flight.final_frames.len()
                    invariant
                        i <= flight.final_frames.len(),
                        out@ == watched(flight.final_frames@.take(i as int), flight.tiles@),
                    decreases flight.final_frames.len() - i,
                {
                    assert(flight.final_frames@.take(i + 1).drop_last()
                        == flight.final_frames@.take(i as int));
                    let window: WindowId = flight.final_frames[i].0;
                    if find(&flight.tiles, window).is_some() {
                        out.push(window);
                    }
                    i += 1;
                }
                assert(flight.final_frames@.take(flight.final_frames@.len() as int)
                    == flight.final_frames@);
                out
            },
        }
    }

    /// Every tiled window's real frame against its intended one, `actual` as the window server
    /// answered just now.
    pub fn handover(&self, actual: &Vec<(WindowId, Rect)>) -> (r: Option<HandoverReport>)
        ensures
            r is Some <==> self.running is Some && self.display is Some,
            r matches Some(report) ==> {
                let flight = self.running->0;
                let frame = (self.display->0).frame;
                &&& report.total == misses_over(
                    flight.final_frames@,
                    tile_windows(flight.tiles@),
                    actual@,
                    frame,
                    -1,
                )
                &&& report.count_over == misses_over(
                    flight.final_frames@,
                    tile_windows(flight.tiles@),
                    actual@,
                    frame,
                    2_000,
                )
                &&& crate::flight::decision::worst_miss(
                    flight.final_frames@,
                    tile_windows(flight.tiles@),
                    actual@,
                    frame,
                    report.worst_visible_pt as int,
                    report.worst_wsid,
                )
            },
    {
        match (&self.running, self.display) {
            (Some(flight), Some(display)) => {
                let tiled: Vec<WindowId> = windows_of_tiles(&flight.tiles);
                Some(handover_report(&flight.final_frames, &tiled, actual, display.frame))
            },
            _ => None,
        }
    }

    /// Whether the overlay lifts: the clock is done, and either the tiles are presented there and no
    /// real window is far off, or the grace has run out. `settled` is what the overlay reports.
    pub fn lifts(&self, settled: bool, actual: &Vec<(WindowId, Rect)>, now: u64) -> (r: bool)
        ensures
            r == lift_due(*self, settled, actual@, now),
    {
        match &self.running {
            None => false,
            Some(flight) => {
                let landed: bool = match self.handover(actual) {
                    Some(report) => report.count_over == 0,
                    None => true,
                };
                lift_now(flight.is_done(now), settled, landed, flight.overdue(now))
            },
        }
    }

    /// Ends the flight. What is still owed goes out before the lift; the owed captures wait for the
    /// quiet period, together with those of earlier flights. Returns the frames to place.
    pub fn finish(&mut self) -> (r: Vec<(WindowId, Rect)>)
        requires
            old(self).wf(),
        ensures
            final(self).wf(),
            final(self).running is None,
            final(self).coalesce is None,
            final(self).bar_refresh,
            final(self).quiet,
            final(self).last_animated@.len() == 0,
            r@ == (match old(self).running {
                Some(flight) => if flight.frames_applied {
                    Seq::empty()
                } else {
                    flight.final_frames@
                },
                None => Seq::empty(),
            }),
            final(self).last_focus == (match old(self).running {
                Some(flight) => if flight.focus is Some {
                    flight.focus
                } else {
                    old(self).last_focus
                },
                None => old(self).last_focus,
            }),
            final(self).after_flight is Some,
            ({
                let targets = match old(self).after_flight {
                    Some(after) => after.targets@,
                    None => Seq::empty(),
                };
                let harvested = match old(self).after_flight {
                    Some(after) => after.harvested@,
                    None => Seq::empty(),
                };
                let landed = match old(self).running {
                    Some(flight) => flight.harvested@,
                    None => Seq::empty(),
                };
                &&& (final(self).after_flight->0).targets@ == added_all(
                    targets,
                    old(self).last_animated@,
                )
                &&& (final(self).after_flight->0).harvested@ == added_all(harvested, landed)
            }),
            *final(self) == (FlightEngine {
                running: None,
                coalesce: None,
                bar_refresh: true,
                quiet: true,
                last_animated: final(self).last_animated,
                last_focus: final(self).last_focus,
                after_flight: final(self).after_flight,
                ..*old(self)
            }),
    {
        let mut frames: Vec<(WindowId, Rect)> = Vec::new();
        let mut landed: Vec<WindowId> = Vec::new();
        match &mut self.running {
            Some(flight) => {
                if let Some(due) = flight.frames_due(Progress { elapsed: 1, total: 1 }) {
                    frames = due;
                }
                landed = copied(&flight.harvested);
                if flight.focus.is_some() {
                    self.last_focus = flight.focus;
                }
            },
            None => {},
        }
        self.running = None;
        self.coalesce = None;
        self.bar_refresh = true;
        let mut after: AfterFlight = match self.after_flight.take() {
            Some(owed) => owed,
            None => AfterFlight { targets: Vec::new(), harvested: Vec::new() },
        };
        add_all(&mut after.targets, &self.last_animated);
        add_all(&mut after.harvested, &landed);
        self.after_flight = Some(after);
        self.last_animated = Vec::new();
        self.quiet = true;
        frames
    }

    /// The capture work the last flights left, once per quiet period. A flight that began first
    /// carries it over.
    pub fn after_flight_captures(&mut self, now: u64) -> (r: QuietWork)
        requires
            old(self).wf(),
        ensures
            final(self).wf(),
            !final(self).quiet,
            old(self).running is Some || old(self).after_flight is None ==> {
                &&& r.captures@.len() == 0 && r.harvest@.len() == 0 && r.deferred@.len() == 0
                &&& r.desktop is None
                &&& *final(self) == (FlightEngine { quiet: false, ..*old(self) })
            },
            old(self).running is None && old(self).after_flight is Some ==> {
                let after = old(self).after_flight->0;
                &&& r.captures@ == wanted_of(old(self).cache@, after.targets@, now)
                &&& r.harvest@ == harvest_set(
                    windows_of(after.targets@),
                    after.harvested@,
                    windows_of(r.captures@),
                    dressed_among(old(self).cache@, windows_of(after.targets@)),
                )
                &&& r.deferred@ == wanted_of(old(self).cache@, old(self).deferred_warm@, now)
                &&& r.desktop == (if old(self).deferred_desktop {
                    match old(self).display {
                        Some(display) => Some((display.id, display.frame.size)),
                        None => None,
                    }
                } else {
                    None
                })
                &&& final(self).after_flight is None
                &&& final(self).deferred_warm@.len() == 0
                &&& *final(self) == (FlightEngine {
                    quiet: false,
                    after_flight: None,
                    deferred_warm: final(self).deferred_warm,
                    deferred_desktop: false,
                    ..*old(self)
                })
            },
    {
        let mut work: QuietWork = QuietWork {
            captures: Vec::new(),
            harvest: Vec::new(),
            deferred: Vec::new(),
            desktop: None,
        };
        self.quiet = false;
        if self.running.is_some() {
            return work;
        }
        match self.after_flight.take() {
            None => work,
            Some(after) => {
                let animated: Vec<WindowId> = windows_of_targets(&after.targets);
                work.captures = self.warm_windows(&after.targets, now);
                let requested: Vec<WindowId> = windows_of_targets(&work.captures);
                let dressed: Vec<WindowId> = self.dressed(&animated);
                work.harvest = finish_harvest_set(&animated, &after.harvested, &requested, &dressed);
                let deferred: Vec<SnapshotTarget> = copied(&self.deferred_warm);
                self.deferred_warm = Vec::new();
                work.deferred = self.warm_windows(&deferred, now);
                if self.deferred_desktop {
                    self.deferred_desktop = false;
                    work.desktop = self.warm_desktop();
                }
                work
            },
        }
    }

    fn dressed(&self, windows: &Vec<WindowId>) -> (r: Vec<WindowId>)
        ensures
            r@ == dressed_among(self.cache@, windows@),
    {
        let mut out: Vec<WindowId> = Vec::new();
        let mut i: usize = 0;
        while i < windows.len()
            invariant
                i <= windows.len(),
                out@ == dressed_among(self.cache@, windows@.take(i as int)),
            decreases windows.len() - i,
        {
            assert(windows@.take(i + 1).drop_last() == windows@.take(i as int));
            if let Some(held) = self.cache.get(windows[i]) {
                if held.dressing.is_some() {
                    out.push(windows[i]);
                }
            }
            i += 1;
        }
        assert(windows@.take(windows@.len() as int) == windows@);
        out
    }

    /// The desktop to draw behind the strips: the render in hand when it is of this display. A new
    /// render is owed when there is none, it is of another display, or it is stale; one asked for now
    /// would land mid-flight, so it is put off.
    pub fn backdrop_in_hand(&mut self, now: u64) -> (r: Backdrop)
        requires
            old(self).wf(),
        ensures
            final(self).wf(),
            old(self).display is None ==> r == Backdrop::NoDisplay && *final(self) == *old(self),
            old(self).display matches Some(display) ==> {
                let size = (display.frame.size.width, display.frame.size.height);
                let in_hand = match old(self).pictures.desktop {
                    Some(render) => Some((age(render.taken, now) as u64, render.coverage.covered)),
                    None => None,
                };
                let good = old(self).pictures.desktop matches Some(render) && spans(
                    render.coverage.covered,
                    size,
                );
                &&& r == (if good {
                    Backdrop::Rendered(old(self).pictures.desktop->0)
                } else {
                    Backdrop::Composite
                })
                &&& *final(self) == (FlightEngine {
                    deferred_desktop: old(self).deferred_desktop || render_wanted(in_hand, size),
                    pictures: crate::flight::engine::DisplayPictures {
                        drawn_once: old(self).pictures.drawn_once || good,
                        ..old(self).pictures
                    },
                    ..*old(self)
                })
            },
    {
        match self.display {
            None => Backdrop::NoDisplay,
            Some(display) => {
                let size: (i64, i64) = (display.frame.size.width, display.frame.size.height);
                let in_hand: Option<(u64, Extent)> = match self.pictures.desktop {
                    Some(render) => Some(
                        (
                            if now >= render.taken {
                                now - render.taken
                            } else {
                                0
                            },
                            render.coverage.covered,
                        ),
                    ),
                    None => None,
                };
                if desktop_render_wanted(in_hand, size) {
                    self.deferred_desktop = true;
                }
                if let Some(render) = self.pictures.desktop {
                    if spans_display(render.coverage.covered, size) {
                        self.pictures.drawn_once = true;
                        return Backdrop::Rendered(render);
                    }
                }
                Backdrop::Composite
            },
        }
    }

    /// Takes the composite that stands in for a render: drawn only when it spans the display and has
    /// its wallpaper, or when there is nothing better to keep.
    pub fn composite_captured(
        &mut self,
        composite: Option<WindowSnapshot>,
        has_wallpaper: bool,
    ) -> (r: Option<WindowSnapshot>)
        requires
            old(self).wf(),
        ensures
            final(self).wf(),
            ({
                let good = composite is Some && old(self).display is Some && spans(
                    (composite->0).coverage.covered,
                    (
                        (old(self).display->0).frame.size.width,
                        (old(self).display->0).frame.size.height,
                    ),
                ) && (has_wallpaper || !old(self).pictures.drawn_once);
                &&& r == (if good {
                    composite
                } else {
                    None
                })
                &&& *final(self) == (FlightEngine {
                    pictures: crate::flight::engine::DisplayPictures {
                        drawn_once: old(self).pictures.drawn_once || good,
                        ..old(self).pictures
                    },
                    ..*old(self)
                })
            }),
    {
        match (composite, self.display) {
            (Some(snapshot), Some(display)) => {
                if is_backdrop_worth_drawing(
                    self.pictures.drawn_once,
                    has_wallpaper,
                    snapshot.coverage.covered,
                    (display.frame.size.width, display.frame.size.height),
                ) {
                    self.pictures.drawn_once = true;
                    Some(snapshot)
                } else {
                    None
                }
            },
            _ => None,
        }
    }

    /// The backdrop a fresh flight is dressed with: the one just taken, else whatever was shown last.
    pub fn dress_backdrop(&mut self, fresh: Option<WindowSnapshot>) -> (r: Option<WindowSnapshot>)
        ensures
            r == (if fresh is Some {
                fresh
            } else {
                old(self).pictures.shown
            }),
            *final(self) == (FlightEngine {
                pictures: crate::flight::engine::DisplayPictures {
                    shown: r,
                    ..old(self).pictures
                },
                ..*old(self)
            }),
    {
        if fresh.is_some() {
            self.pictures.shown = fresh;
        }
        self.pictures.shown
    }

    /// Takes a desktop render that has landed.
    pub fn desktop_landed(&mut self, render: WindowSnapshot)
        ensures
            *final(self) == (FlightEngine {
                pictures: crate::flight::engine::DisplayPictures {
                    desktop: Some(render),
                    ..old(self).pictures
                },
                ..*old(self)
            }),
    {
        self.pictures.desktop = Some(render);
    }

    /// The bar's held picture and where it sits in overlay coordinates, from the bounds its windows
    /// occupy. Without a bar there is neither.
    pub fn bar_picture(&self, bounds: Option<Rect>) -> (r: (Option<WindowSnapshot>, Option<Rect>))
        requires
            self.wf(),
            bounds matches Some(frame) ==> frame.inside(2),
        ensures
            r == (match (self.display, bounds) {
                (Some(display), Some(frame)) => (
                    self.pictures.bar,
                    Some(crate::surface::in_overlay(frame, display.frame)),
                ),
                _ => (None, None),
            }),
    {
        match (self.display, bounds) {
            (Some(display), Some(frame)) => (
                self.pictures.bar,
                Some(crate::surface::to_overlay_space(frame, display.frame)),
            ),
            _ => (None, None),
        }
    }

    /// The size to capture the bar at on its own. Nothing is captured while the overlay covers it,
    /// nor without a bar.
    pub fn refresh_bar(&self, overlay_visible: bool, bounds: Option<Rect>) -> (r: Option<Size>)
        ensures
            r == (match (self.display, bounds) {
                (Some(_), Some(frame)) => if overlay_visible {
                    None
                } else {
                    Some(frame.size)
                },
                _ => None,
            }),
    {
        match (self.display, bounds) {
            (Some(_), Some(frame)) => if overlay_visible {
                None
            } else {
                Some(frame.size)
            },
            _ => None,
        }
    }

    /// Takes a fresh picture of the bar, if it covers the bar's bounds without distortion. A capture
    /// made while the overlay covers the bar is not offered at all.
    pub fn bar_captured(&mut self, fresh: Option<WindowSnapshot>, bounds: Size)
        ensures
            *final(self) == (FlightEngine {
                pictures: crate::flight::engine::DisplayPictures {
                    bar: if fresh is Some && (fresh->0).suits(bounds) {
                        fresh
                    } else {
                        old(self).pictures.bar
                    },
                    ..old(self).pictures
                },
                ..*old(self)
            }),
    {
        if let Some(picture) = fresh {
            if picture.fits(bounds) {
                self.pictures.bar = fresh;
            }
        }
    }

    /// A bounce joins the flight: its clock covers the return leg. Returns whether there is a flight.
    pub fn bounce(&mut self, bounce: u64, now: u64) -> (r: bool)
        requires
            old(self).wf(),
            now + bounce <= u64::MAX,
        ensures
            final(self).wf(),
            r == (old(self).running is Some),
            old(self).running is None ==> *final(self) == *old(self),
            old(self).running matches Some(flight) ==> *final(self) == (FlightEngine {
                running: Some(
                    RunningAnimation {
                        duration: greater(
                            flight.duration as int,
                            match flight.started {
                                Some(started) => age(started, now) + bounce,
                                None => bounce as int,
                            },
                        ) as u64,
                        ..flight
                    },
                ),
                ..*old(self)
            }),
    {
        match &mut self.running {
            None => false,
            Some(flight) => {
                let elapsed: Option<u64> = match flight.started {
                    Some(started) => Some(
                        if now >= started {
                            now - started
                        } else {
                            0
                        },
                    ),
                    None => None,
                };
                flight.duration = clock_for_bounce(elapsed, flight.duration, bounce);
                true
            },
        }
    }
}

/// Those of `windows` whose cached picture wears a hairline, in order.
pub open spec fn dressed_among(
    cache: Map<WindowId, WindowSnapshot>,
    windows: Seq<WindowId>,
) -> Seq<WindowId>
    decreases windows.len(),
{
    if windows.len() == 0 {
        Seq::empty()
    } else {
        let before = dressed_among(cache, windows.drop_last());
        if cache.dom().contains(windows.last()) && cache[windows.last()].dressing is Some {
            before.push(windows.last())
        } else {
            before
        }
    }
}

proof fn focus_ends_are_tiles(
    previous: Option<WindowId>,
    current: Option<WindowId>,
    tiles: Seq<WindowId>,
    i: int,
)
    requires
        0 <= i < focus_ends(previous, current, tiles).len(),
    ensures
        tiles.contains(focus_ends(previous, current, tiles)[i]),
{
}

/// A flight places its frames once: after the tick that sent them, no later tick sends them again
/// unless a merge made them stale.
pub proof fn frames_go_out_once(
    before: RunningAnimation,
    after: RunningAnimation,
    last_focus: Option<WindowId>,
    now: u64,
    later: u64,
)
    requires
        ticked(before, after, last_focus, now),
        frames_are_due(before, before.progress_at(now)),
    ensures
        !frames_are_due(after, after.progress_at(later)),
{
}

/// No overlay lifts before its flight's clock has run out, and every overlay lifts once the clock is
/// overdue by more than the grace, whatever the render server and the real windows do.
pub proof fn a_flight_lifts_in_its_time(
    engine: FlightEngine,
    settled: bool,
    actual: Seq<(WindowId, Rect)>,
    now: u64,
)
    requires
        engine.running is Some,
        (engine.running->0).started is Some,
    ensures
        ({
            let flight = engine.running->0;
            let elapsed = flight.progress_at(now).elapsed;
            &&& elapsed < flight.duration ==> !lift_due(engine, settled, actual, now)
            &&& elapsed > flight.duration + LIFT_GRACE ==> lift_due(engine, settled, actual, now)
        }),
{
}

/// A flight recaptures its focus change at most once, never before the midpoint and never while it
/// holds.
pub proof fn one_refresh_per_flight(
    before: RunningAnimation,
    after: RunningAnimation,
    last_focus: Option<WindowId>,
    now: u64,
    later: u64,
)
    requires
        ticked(before, after, last_focus, now),
        refresh_is_due(before, before.progress_at(now)),
    ensures
        before.started is Some,
        before.progress_at(now).at_least(50),
        !refresh_is_due(after, after.progress_at(later)),
{
}

/// A tick sends every frame at the apply point and at no other, and asks for the refresh once past
/// the middle; the clock is done when the flight's time is up. The tiles stay as they are.
pub proof fn a_tick_does_what_is_due(engine: &mut FlightEngine, now: u64, tick: Tick)
    requires
        call_ensures(FlightEngine::step, (engine, now), tick),
        old(engine).wf(),
        old(engine).running is Some,
    ensures
        ({
            let before = old(engine).running->0;
            let elapsed = before.progress_at(now).elapsed;
            &&& final(engine).running is Some
            &&& (final(engine).running->0).tiles == before.tiles
            &&& (final(engine).running->0).started == before.started
            &&& (final(engine).running->0).final_frames == before.final_frames
            &&& before.frames_applied ==> tick.frames@.len() == 0
            &&& before.destination_refreshed || before.started is None ==> tick.refresh@.len() == 0
            &&& before.started is None ==> !tick.clock_done
            &&& before.started is Some && before.duration > 0 ==> {
                &&& tick.clock_done <==> elapsed >= before.duration
                &&& 100 * elapsed >= before.apply_at * before.duration && elapsed <= before.duration
                    && !before.frames_applied ==> tick.frames@ == before.final_frames@
                &&& 100 * elapsed < before.apply_at * before.duration ==> tick.frames@.len() == 0
                &&& 2 * elapsed < before.duration ==> tick.refresh@.len() == 0
                &&& 2 * elapsed >= before.duration ==> (
                final(engine).running->0).destination_refreshed
            }
        }),
{
    let before = old(engine).running->0;
    if before.started is Some && before.duration > 0 {
        crate::time::progress_is_the_share_of_the_time(before.progress_at(now), 50);
        crate::time::progress_is_the_share_of_the_time(before.progress_at(now), 100);
        crate::time::progress_is_the_share_of_the_time(
            before.progress_at(now),
            before.apply_at as int,
        );
        let (d, p) = (before.duration as int, before.apply_at as int);
        assert(p * d <= 100 * d) by (nonlinear_arith)
            requires
                p <= 100,
                d >= 0,
        ;
    }
}

/// What is refreshed is a tiled end of the focus change, no border, at the size its tile ends with.
pub proof fn a_refresh_is_of_the_focus_changes_ends(
    last_focus: Option<WindowId>,
    focus: Option<WindowId>,
    tiles: Seq<OverlayTile>,
    k: int,
)
    requires
        0 <= k < refresh_due(last_focus, focus, tiles).len(),
    ensures
        ({
            let target = refresh_due(last_focus, focus, tiles)[k];
            &&& focus != last_focus && focus is Some
            &&& focus == Some(target.window) || last_focus == Some(target.window)
            &&& target.server_id.0 == target.window.idx
            &&& exists|i: int|
                0 <= i < tiles.len() && !(#[trigger] tiles[i]).companion && tiles[i].window
                    == target.window && tiles[i].to.size == target.size
        }),
{
    let open_to = refreshable(tiles);
    let windows = first_windows(open_to);
    let wanted = focus_ends(last_focus, focus, windows);
    crate::flight::decision::a_refresh_asks_for_the_tiles_wanted(
        open_to,
        wanted,
        Seq::empty(),
        k,
        0,
    );
    let target = refresh_due(last_focus, focus, tiles)[k];
    crate::flight::decision::a_focus_change_refreshes_its_two_ends(
        last_focus,
        focus,
        windows,
        target.window,
    );
    let t = choose|t: int|
        {
            &&& 0 <= t < open_to.len()
            &&& (#[trigger] open_to[t]).0 == target.window
            &&& open_to[t].1 == target.server_id
            &&& open_to[t].2 == target.size
        };
    crate::flight::engine::a_border_is_never_refreshed(tiles, t, 0);
}

/// The overlay lifts over windows that have landed: with the clock done and the tiles presented it
/// lifts unless some window that is drawn, on screen and answered for is more than two points off.
pub proof fn an_overlay_lifts_unless_a_window_is_off(
    engine: FlightEngine,
    actual: Seq<(WindowId, Rect)>,
    now: u64,
    i: int,
)
    requires
        engine.running is Some,
        engine.display is Some,
        (engine.running->0).started is Some,
        (engine.running->0).progress_at(now).elapsed >= (engine.running->0).duration,
        (engine.running->0).progress_at(now).elapsed <= (engine.running->0).duration + 350_000_000,
    ensures
        ({
            let flight = engine.running->0;
            let display = (engine.display->0).frame;
            let tiled = tile_windows(flight.tiles@);
            &&& !lift_due(engine, false, actual, now)
            &&& 0 <= i < flight.final_frames@.len() && crate::flight::decision::measured(
                flight.final_frames@[i],
                tiled,
                actual,
                display,
            ) && crate::flight::decision::miss(flight.final_frames@[i], actual) > 2_000
                ==> !lift_due(engine, true, actual, now)
            &&& (forall|j: int|
                0 <= j < flight.final_frames@.len() && crate::flight::decision::measured(
                    #[trigger] flight.final_frames@[j],
                    tiled,
                    actual,
                    display,
                ) ==> crate::flight::decision::miss(flight.final_frames@[j], actual) <= 2_000)
                ==> lift_due(engine, true, actual, now)
        }),
{
    let flight = engine.running->0;
    crate::flight::decision::misses_are_counted_one_by_one(
        flight.final_frames@,
        Seq::empty(),
        tile_windows(flight.tiles@),
        actual,
        (engine.display->0).frame,
        2_000,
        2_000,
    );
    crate::time::progress_is_the_share_of_the_time(flight.progress_at(now), 100);
}

/// A finished flight is gone and owes nothing unsaid: frames not yet out are handed back, all of
/// them; its windows are owed their captures together with those owed before, and the focus it
/// landed on is remembered.
pub proof fn a_finished_flight_leaves_its_captures(
    engine: &mut FlightEngine,
    frames: Vec<(WindowId, Rect)>,
    window: WindowId,
)
    requires
        call_ensures(FlightEngine::finish, (engine,), frames),
        old(engine).wf(),
    ensures
        final(engine).running is None && final(engine).coalesce is None,
        final(engine).quiet && final(engine).bar_refresh,
        old(engine).running is None ==> frames@.len() == 0 && final(engine).last_focus == old(engine).last_focus,
        old(engine).running matches Some(flight) ==> {
            &&& flight.frames_applied ==> frames@.len() == 0
            &&& !flight.frames_applied ==> frames@ == flight.final_frames@
            &&& flight.focus is Some ==> final(engine).last_focus == flight.focus
            &&& flight.focus is None ==> final(engine).last_focus == old(engine).last_focus
        },
        final(engine).last_animated@.len() == 0,
        final(engine).after_flight is Some,
        old(engine).after_flight is None ==> crate::keyed::lookup(
            (final(engine).after_flight->0).targets@,
            window,
        ) == crate::keyed::lookup(old(engine).last_animated@, window),
        old(engine).after_flight is Some && listed((old(engine).after_flight->0).targets@, window)
            ==> crate::keyed::lookup((final(engine).after_flight->0).targets@, window)
            == crate::keyed::lookup((old(engine).after_flight->0).targets@, window),
        old(engine).after_flight is Some && !listed((old(engine).after_flight->0).targets@, window)
            ==> crate::keyed::lookup((final(engine).after_flight->0).targets@, window)
            == crate::keyed::lookup(old(engine).last_animated@, window),
        final(engine).cache == old(engine).cache && final(engine).pictures == old(engine).pictures
            && final(engine).display == old(engine).display,
{
    let owed = match old(engine).after_flight {
        Some(after) => after.targets@,
        None => Seq::empty(),
    };
    crate::keyed::the_first_item_added_stays(owed, old(engine).last_animated@, window);
    if old(engine).after_flight is None {
        assert(!listed(owed, window));
    }
}

/// The captures owed are made once, in a quiet period, and never under a flight; then nothing is owed
/// any more. A window is harvested when it was animated and wears no hairline.
pub proof fn owed_captures_are_made_once(
    engine: &mut FlightEngine,
    now: u64,
    work: QuietWork,
    window: WindowId,
)
    requires
        call_ensures(FlightEngine::after_flight_captures, (engine, now), work),
        old(engine).wf(),
    ensures
        !final(engine).quiet,
        old(engine).running is Some || old(engine).after_flight is None ==> work.captures@.len() == 0
            && work.harvest@.len() == 0 && work.deferred@.len() == 0 && work.desktop is None
            && final(engine).after_flight == old(engine).after_flight
            && final(engine).deferred_desktop == old(engine).deferred_desktop,
        old(engine).running is None && old(engine).after_flight is Some ==> {
            let owed = old(engine).after_flight->0;
            &&& final(engine).after_flight is None
            &&& final(engine).deferred_warm@.len() == 0 && !final(engine).deferred_desktop
            &&& work.desktop is Some <==> old(engine).deferred_desktop && old(engine).display is Some
            &&& work.desktop matches Some(render) ==> render.0 == (old(engine).display->0).id
                && render.1 == (old(engine).display->0).frame.size
            &&& forall|target: SnapshotTarget| #[trigger]
                work.captures@.contains(target) <==> owed.targets@.contains(target)
                    && crate::flight::engine::wants_capture(old(engine).cache@, target, now)
            &&& forall|target: SnapshotTarget| #[trigger]
                work.deferred@.contains(target) <==> old(engine).deferred_warm@.contains(target)
                    && crate::flight::engine::wants_capture(old(engine).cache@, target, now)
            &&& work.harvest@.contains(window) <==> windows_of(owed.targets@).contains(window)
                && !owed.harvested@.contains(window) && !windows_of(work.captures@).contains(window)
                && !(old(engine).cache@.dom().contains(window) && old(engine).cache@[window].dressing is Some)
        },
        final(engine).cache == old(engine).cache,
{
    if old(engine).running is None && old(engine).after_flight is Some {
        let owed = old(engine).after_flight->0;
        assert forall|target: SnapshotTarget| #[trigger]
            work.captures@.contains(target) <==> owed.targets@.contains(target)
                && crate::flight::engine::wants_capture(old(engine).cache@, target, now) by {
            crate::flight::engine::the_targets_wanted_are_kept_in_order(
                old(engine).cache@,
                owed.targets@,
                Seq::empty(),
                target,
                now,
            );
        }
        assert forall|target: SnapshotTarget| #[trigger]
            work.deferred@.contains(target) <==> old(engine).deferred_warm@.contains(target)
                && crate::flight::engine::wants_capture(old(engine).cache@, target, now) by {
            crate::flight::engine::the_targets_wanted_are_kept_in_order(
                old(engine).cache@,
                old(engine).deferred_warm@,
                Seq::empty(),
                target,
                now,
            );
        }
        let animated = windows_of(owed.targets@);
        let dressed = dressed_among(old(engine).cache@, animated);
        crate::flight::decision::a_harvest_is_of_bare_windows(
            animated,
            owed.harvested@,
            windows_of(work.captures@),
            dressed,
            window,
        );
        a_dressed_window_wears_a_hairline(old(engine).cache@, animated, window);
    }
}

/// The dressed among some windows are those whose cached picture wears a hairline.
pub proof fn a_dressed_window_wears_a_hairline(
    cache: Map<WindowId, WindowSnapshot>,
    windows: Seq<WindowId>,
    window: WindowId,
)
    ensures
        dressed_among(cache, windows).contains(window) <==> windows.contains(window)
            && cache.dom().contains(window) && cache[window].dressing is Some,
    decreases windows.len(),
{
    if windows.len() > 0 {
        let rest = windows.drop_last();
        let last = windows.last();
        a_dressed_window_wears_a_hairline(cache, rest, window);
        let before = dressed_among(cache, rest);
        assert(windows.contains(window) <==> rest.contains(window) || window == last) by {
            if rest.contains(window) {
                let i = choose|i: int| 0 <= i < rest.len() && rest[i] == window;
                assert(windows[i] == window);
            }
            assert(windows[windows.len() - 1] == last);
            if windows.contains(window) && window != last {
                let i = choose|i: int| 0 <= i < windows.len() && windows[i] == window;
                assert(rest[i] == window);
            }
        }
        assert(before.push(last).contains(window) <==> before.contains(window) || window == last) by {
            if before.contains(window) {
                let i = choose|i: int| 0 <= i < before.len() && before[i] == window;
                assert(before.push(last)[i] == window);
            }
            assert(before.push(last)[before.len() as int] == last);
        }
    }
}

/// The render in hand is drawn when it spans the display; otherwise a composite is taken. A render
/// that is missing, stale or of another display is owed.
pub proof fn a_render_of_the_display_is_drawn(engine: &mut FlightEngine, now: u64, r: Backdrop)
    requires
        call_ensures(FlightEngine::backdrop_in_hand, (engine, now), r),
        old(engine).wf(),
        old(engine).display is Some,
    ensures
        ({
            let size = (old(engine).display->0).frame.size;
            let held = old(engine).pictures.desktop;
            let good = held is Some && spans((held->0).coverage.covered, (size.width, size.height));
            &&& r == Backdrop::Rendered(held->0) <==> good
            &&& !good ==> r == Backdrop::Composite && final(engine).deferred_desktop
            &&& good && now - (held->0).taken > 2_000_000_000 ==> final(engine).deferred_desktop
            &&& good && now - (held->0).taken <= 2_000_000_000 ==> final(engine).deferred_desktop
                == old(engine).deferred_desktop
            &&& good ==> final(engine).pictures.drawn_once
            &&& final(engine).pictures.desktop == held
        }),
{
}

/// A composite is drawn when it spans the display and shows the wallpaper, or nothing was drawn yet;
/// one that is turned down changes nothing.
pub proof fn a_composite_is_drawn_for_want_of_better(
    engine: &mut FlightEngine,
    composite: WindowSnapshot,
    has_wallpaper: bool,
    r: Option<WindowSnapshot>,
)
    requires
        call_ensures(FlightEngine::composite_captured, (engine, Some(composite), has_wallpaper), r),
        old(engine).wf(),
        old(engine).display is Some,
    ensures
        ({
            let size = (old(engine).display->0).frame.size;
            let spanning = spans(composite.coverage.covered, (size.width, size.height));
            &&& r is Some <==> spanning && (has_wallpaper || !old(engine).pictures.drawn_once)
            &&& r is Some ==> r == Some(composite) && final(engine).pictures.drawn_once
            &&& r is None ==> *final(engine) == *old(engine)
        }),
{
}

/// A flight is dressed with the fresh backdrop, or with the one shown last, and what it is dressed
/// with is shown last.
pub proof fn a_flight_is_dressed_with_what_there_is(
    engine: &mut FlightEngine,
    fresh: Option<WindowSnapshot>,
    r: Option<WindowSnapshot>,
)
    requires
        call_ensures(FlightEngine::dress_backdrop, (engine, fresh), r),
    ensures
        fresh is Some ==> r == fresh,
        fresh is None ==> r == old(engine).pictures.shown,
        final(engine).pictures.shown == r,
        final(engine).pictures.desktop == old(engine).pictures.desktop,
        final(engine).pictures.bar == old(engine).pictures.bar,
{
}

/// The bar's picture is drawn over the bar's own bounds, seen from the display; it is captured at the
/// bar's size, never from under the overlay, and a capture of another shape is not kept.
pub proof fn a_bar_is_drawn_over_its_bounds(
    engine: &mut FlightEngine,
    bounds: Rect,
    covered: bool,
    at: Option<Size>,
    fresh: Option<WindowSnapshot>,
    done: (),
    drawn: (Option<WindowSnapshot>, Option<Rect>),
)
    requires
        old(engine).wf(),
        bounds.inside(2),
        old(engine).display is Some,
        call_ensures(FlightEngine::bar_picture, (old(engine), Some(bounds)), drawn),
        call_ensures(FlightEngine::refresh_bar, (old(engine), covered, Some(bounds)), at),
        call_ensures(FlightEngine::bar_captured, (engine, fresh, bounds.size), done),
    ensures
        drawn.0 == old(engine).pictures.bar,
        drawn.1 is Some,
        (drawn.1->0).origin.x + (old(engine).display->0).frame.origin.x == bounds.origin.x,
        (drawn.1->0).origin.y + (old(engine).display->0).frame.origin.y == bounds.origin.y,
        (drawn.1->0).size == bounds.size,
        covered ==> at is None,
        !covered ==> at == Some(bounds.size),
        fresh is Some && (fresh->0).suits(bounds.size) ==> final(engine).pictures.bar == fresh,
        fresh is None || !(fresh->0).suits(bounds.size) ==> *final(engine) == *old(engine),
{
}

/// A bounce leaves the flight running for its own time from now at the least, and never shortens it;
/// nothing else of the flight changes.
pub proof fn a_bounce_never_shortens_a_flight(
    engine: &mut FlightEngine,
    bounce: u64,
    now: u64,
    flying: bool,
)
    requires
        call_ensures(FlightEngine::bounce, (engine, bounce, now), flying),
        old(engine).wf(),
        now + bounce <= u64::MAX,
    ensures
        flying <==> old(engine).running is Some,
        !flying ==> *final(engine) == *old(engine),
        old(engine).running matches Some(flight) ==> {
            let after = final(engine).running->0;
            &&& final(engine).running is Some
            &&& after.duration >= flight.duration && after.duration >= bounce
            &&& flight.started matches Some(started) ==> now >= started ==> after.duration >= now
                - started + bounce && (after.duration == flight.duration || after.duration == now
                - started + bounce)
            &&& flight.started is None ==> after.duration == flight.duration || after.duration
                == bounce
            &&& after.tiles == flight.tiles && after.started == flight.started
            &&& after.final_frames == flight.final_frames
        },
{
}

/// What is measured before a lift is every tiled window with a frame to stand at, and a report is
/// made only of a flight on a display.
pub proof fn a_handover_is_of_the_flight_on_the_display(
    engine: FlightEngine,
    actual: Vec<(WindowId, Rect)>,
    report: Option<HandoverReport>,
    windows: Vec<WindowId>,
    window: WindowId,
)
    requires
        call_ensures(FlightEngine::handover, (&engine, &actual), report),
        call_ensures(FlightEngine::handover_windows, (&engine,), windows),
    ensures
        report is Some <==> engine.running is Some && engine.display is Some,
        engine.running is None ==> windows@.len() == 0,
        engine.running matches Some(flight) ==> (windows@.contains(window) <==> listed(
            flight.final_frames@,
            window,
        ) && listed(flight.tiles@, window)),
        report matches Some(r) ==> {
            let flight = engine.running->0;
            let frame = (engine.display->0).frame;
            let tiled = tile_windows(flight.tiles@);
            r.count_over == 0 <==> forall|i: int|
                0 <= i < flight.final_frames@.len() && crate::flight::decision::measured(
                    #[trigger] flight.final_frames@[i],
                    tiled,
                    actual@,
                    frame,
                ) ==> crate::flight::decision::miss(flight.final_frames@[i], actual@) <= 2_000
        },
{
    if let Some(flight) = engine.running {
        crate::flight::engine::a_watched_window_is_placed_and_drawn(
            flight.final_frames@,
            Seq::empty(),
            flight.tiles@,
            window,
        );
        if let Some(display) = engine.display {
            crate::flight::decision::misses_are_counted_one_by_one(
                flight.final_frames@,
                Seq::empty(),
                tile_windows(flight.tiles@),
                actual@,
                display.frame,
                2_000,
                2_000,
            );
        }
    }
}

/// The overlay is lifted when that is due, and a render that lands is the one in hand.
pub proof fn an_overlay_is_lifted_when_due(
    engine: &mut FlightEngine,
    settled: bool,
    actual: Vec<(WindowId, Rect)>,
    now: u64,
    lifts: bool,
    render: WindowSnapshot,
    done: (),
)
    requires
        call_ensures(FlightEngine::lifts, (old(engine), settled, &actual, now), lifts),
        call_ensures(FlightEngine::desktop_landed, (engine, render), done),
    ensures
        lifts == lift_due(*old(engine), settled, actual@, now),
        old(engine).running is None ==> !lifts,
        final(engine).pictures.desktop == Some(render),
        final(engine).pictures.shown == old(engine).pictures.shown,
        final(engine).pictures.bar == old(engine).pictures.bar,
        final(engine).running == old(engine).running,
{
}

} // verus!
