//! What the flight engine does at each event: from its state and what the outside answered to its
//! next state and the work that is now due.
//!
//! The engine never draws, captures or sets a timer itself. Each method says what is to be placed,
//! captured, chased or armed, and the owner does it.
use vstd::prelude::*;

use crate::fit::{alike, capture_needed, needs_capture, picture_is_stale};
use crate::flight::compose::{listing_inside, AnimationRequest};
use crate::flight::decision::{
    capture_work_allowed, contains, defer_warm, hold_wait, renderings_match, renders_like,
    wait_left, windows_of, CacheComparison, CaptureKind, FlightPhase, PendingEntrance,
    SnapshotTarget, SwapReason,
};
use crate::flight::running::RunningAnimation;
use crate::flight::stack::OverlayTile;
use crate::geometry::{Point, Rect, Size};
use crate::ids::{synthetic, synthetic_window_id, WindowId, WindowServerId};
use crate::keyed::{listed, upserted_all};
use crate::snapshot::{SnapshotCache, SnapshotImage, WindowSnapshot};
use crate::time::SECOND;
use crate::travel::{is_moving, moves};

verus! {

/// The pictures that only make sense for the display the overlay is on; forgotten as a unit.
#[derive(Clone, Copy, PartialEq, Eq, Debug)]
pub struct DisplayPictures {
    /// Whatever the backdrop is currently showing; reused rather than recaptured.
    pub shown: Option<WindowSnapshot>,
    /// The desktop as rendered in the background: the only source that reliably has the wallpaper.
    pub desktop: Option<WindowSnapshot>,
    /// The last usable picture of the bar; capturable only while the overlay is not covering it.
    pub bar: Option<WindowSnapshot>,
    /// Whether a usable desktop has ever been drawn; until then a wallpaper-less capture beats black.
    pub drawn_once: bool,
}

impl DisplayPictures {
    /// No picture at all.
    pub open spec fn none() -> DisplayPictures {
        DisplayPictures { shown: None, desktop: None, bar: None, drawn_once: false }
    }

    /// Forgets every picture of the display.
    pub fn forget(&mut self)
        ensures
            *final(self) == DisplayPictures::none(),
    {
        self.shown = None;
        self.desktop = None;
        self.bar = None;
        self.drawn_once = false;
    }
}

/// The display the overlay is on: the usable frame, without the menu bar strip.
#[derive(Clone, Copy, PartialEq, Eq, Structural, Debug)]
pub struct Display {
    pub id: u32,
    pub frame: Rect,
    /// Pixels per point, in thousandths.
    pub scale: u32,
}

/// The capture work a lift leaves for the quiet period.
pub struct AfterFlight {
    pub targets: Vec<SnapshotTarget>,
    pub harvested: Vec<WindowId>,
}

/// The engine's state.
pub struct FlightEngine {
    pub cache: SnapshotCache,
    pub display: Option<Display>,
    pub running: Option<RunningAnimation>,
    /// The interval of the timer that starts the animation, while it is armed.
    pub coalesce: Option<u64>,
    /// Whether the timer of the quiet period is armed.
    pub quiet: bool,
    /// The capture work the last flights owe.
    pub after_flight: Option<AfterFlight>,
    /// Windows from the most recent animation, so the refresh after it uses real identifiers.
    pub last_animated: Vec<SnapshotTarget>,
    /// Warms asked for during a flight, one per window.
    pub deferred_warm: Vec<SnapshotTarget>,
    /// Whether the desktop render was missing or stale at composition.
    pub deferred_desktop: bool,
    /// The focus the previous flight landed on. Kept across a flight that names no focus.
    pub last_focus: Option<WindowId>,
    pub pictures: DisplayPictures,
    /// Whether the timer that recaptures the bar is armed.
    pub bar_refresh: bool,
}

/// How old a picture taken at `taken` is at `now`.
pub open spec fn age(taken: u64, now: u64) -> int {
    if now >= taken {
        now - taken
    } else {
        0
    }
}

fn age_of(taken: u64, now: u64) -> (r: u64)
    ensures
        r == age(taken, now),
{
    if now >= taken {
        now - taken
    } else {
        0
    }
}

/// A target wants a capture: it has no usable picture of its size, or only a stale one.
pub open spec fn wants_capture(
    cache: Map<WindowId, WindowSnapshot>,
    target: SnapshotTarget,
    now: u64,
) -> bool {
    let usable = cache.dom().contains(target.window) && cache[target.window].coverage.usable();
    if usable {
        let held = cache[target.window];
        capture_needed(Some(held.coverage), (target.size.width, target.size.height)) || age(
            held.taken,
            now,
        ) > 2 * SECOND
    } else {
        true
    }
}

/// The targets that want a capture, in order.
pub open spec fn wanted_of(
    cache: Map<WindowId, WindowSnapshot>,
    targets: Seq<SnapshotTarget>,
    now: u64,
) -> Seq<SnapshotTarget>
    decreases targets.len(),
{
    if targets.len() == 0 {
        Seq::empty()
    } else {
        let before = wanted_of(cache, targets.drop_last(), now);
        if wants_capture(cache, targets.last(), now) {
            before.push(targets.last())
        } else {
            before
        }
    }
}

/// The contents of an optional thumbprint.
pub open spec fn print_seen(print: Option<&Vec<u8>>) -> Option<Seq<u8>> {
    match print {
        Some(bytes) => Some(bytes@),
        None => None,
    }
}

/// How an incoming picture compares with what `cache` holds of its window. With nothing cached the
/// source counts as the same and the rendering as different; a rendering is the same only between
/// bitmaps of one size whose thumbprints match.
pub open spec fn compared(
    cache: Map<WindowId, WindowSnapshot>,
    window: WindowId,
    incoming: WindowSnapshot,
    cached_print: Option<Seq<u8>>,
    incoming_print: Option<Seq<u8>>,
) -> CacheComparison {
    if cache.dom().contains(window) {
        let cached = cache[window];
        CacheComparison {
            renders_like_cached: alike(cached.coverage.covered, incoming.coverage.covered)
                && cached.image is Bitmap && incoming.image is Bitmap && cached_print is Some && incoming_print is Some
                && renders_like(cached_print->0, incoming_print->0),
            same_source: cached.source == incoming.source,
        }
    } else {
        CacheComparison { renders_like_cached: false, same_source: true }
    }
}

/// What starting the movement came to.
#[derive(Clone, Copy, PartialEq, Eq, Structural, Debug)]
pub enum Start {
    /// There is no flight, or it moves already.
    Nothing,
    /// The flight holds for pictures; look again after this long.
    Wait(u64),
    /// The flight moves from now on, for this long.
    Moving(u64),
}

/// What a landed picture did to the flight.
#[derive(Clone, Copy, PartialEq, Eq, Debug)]
pub enum Offer {
    /// It is cached and nothing more.
    CacheOnly,
    /// A held flight took it: frame zero is composed again, and the flight may have been started.
    Taken(Start),
    /// A reserved entrance joins the moving flight with this tile, for this long.
    Entered(OverlayTile, u64),
    /// It is cut onto its moving tile; the flight has this long left.
    Swapped(SwapReason, u64),
}

/// What is due at a tick.
pub struct Tick {
    /// Frames to place now.
    pub frames: Vec<(WindowId, Rect)>,
    /// Windows to recapture now: the two ends of a focus change.
    pub refresh: Vec<SnapshotTarget>,
    /// The clock has run out: see whether the overlay may lift.
    pub clock_done: bool,
}

/// What the quiet period runs.
pub struct QuietWork {
    pub captures: Vec<SnapshotTarget>,
    pub harvest: Vec<WindowId>,
    pub deferred: Vec<SnapshotTarget>,
    pub desktop: Option<(u32, Size)>,
}

/// How a fresh group of tiles begins moving.
#[derive(Clone, Copy, PartialEq, Eq, Structural, Debug)]
pub enum GroupStart {
    /// Wait one [`COALESCE_WINDOW`] for the layout passes to settle. For layout changes.
    Coalesced,
    /// Move now. For strip movements, which arrive once per keystroke.
    Immediate,
}

/// One composed pass on its way into a flight.
pub struct Group {
    pub tiles: Vec<OverlayTile>,
    pub final_frames: Vec<(WindowId, Rect)>,
    pub duration: u64,
    pub start: GroupStart,
    pub apply_at: u8,
    pub entrances: Vec<PendingEntrance>,
    pub awaiting: Vec<(WindowId, Size)>,
    pub chase: Vec<(WindowId, Size)>,
    pub entrance_frames: Vec<(WindowId, Rect)>,
    pub focus: Option<WindowId>,
}

/// What folding a pass into a running flight came to.
pub struct Merge {
    /// The flight was moving already.
    pub in_flight: bool,
    /// The frames a held flight places now.
    pub hold_frames: Option<Vec<(WindowId, Rect)>>,
    /// Some window got another destination.
    pub frames_changed: bool,
    /// The pass named another focus than the flight had.
    pub focus_changed: bool,
}

/// What is due once a pass was folded in or a flight begun: frames to place, in this order, and
/// windows to chase.
pub struct FollowUp {
    pub place: Vec<(WindowId, Rect)>,
    pub then_place: Vec<(WindowId, Rect)>,
    pub chase: Vec<(WindowId, Size)>,
}

/// What a fresh group came to.
pub enum Begun {
    /// Nothing to draw: the frames are placed at once and these windows captured for the next time.
    Grounded(Vec<(WindowId, Rect)>, Vec<SnapshotTarget>),
    /// The flight is up at frame zero.
    Up(FollowUp, Start),
}

/// The phase of the flight, if there is one.
pub open spec fn phase_with(running: Option<RunningAnimation>) -> FlightPhase {
    match running {
        Some(flight) => flight.phase_of(),
        None => FlightPhase::Idle,
    }
}

/// The flight once its movement starts at `now`, as far as its holds let it.
pub open spec fn started_at(flight: RunningAnimation, now: u64) -> Start {
    if flight.started is Some {
        Start::Nothing
    } else if flight.awaiting@.len() > 0 && wait_left(flight.hold_deadline, now) is Some {
        Start::Wait(wait_left(flight.hold_deadline, now)->0)
    } else {
        Start::Moving(flight.duration)
    }
}

/// `after` is `before` once its movement was started at `now`.
pub open spec fn starts_moving(
    before: RunningAnimation,
    after: RunningAnimation,
    now: u64,
) -> bool {
    match started_at(before, now) {
        Start::Moving(_) => after.awaiting@.len() == 0 && after == (RunningAnimation {
            started: Some(now),
            awaiting: after.awaiting,
            ..before
        }),
        _ => after == before,
    }
}

/// The frames of a flight at which the owner looks before lifting: those of windows with a tile.
pub open spec fn watched(frames: Seq<(WindowId, Rect)>, tiles: Seq<OverlayTile>) -> Seq<WindowId>
    decreases frames.len(),
{
    if frames.len() == 0 {
        Seq::empty()
    } else {
        let before = watched(frames.drop_last(), tiles);
        if listed(tiles, frames.last().0) {
            before.push(frames.last().0)
        } else {
            before
        }
    }
}

/// The windows of tiles.
pub open spec fn tile_windows(tiles: Seq<OverlayTile>) -> Seq<WindowId> {
    tiles.map_values(|t: OverlayTile| t.window)
}

pub fn windows_of_tiles(tiles: &Vec<OverlayTile>) -> (r: Vec<WindowId>)
    ensures
        r@ == tile_windows(tiles@),
{
    let mut out: Vec<WindowId> = Vec::new();
    let mut i: usize = 0;
    while i < tiles.len()
        invariant
            i <= tiles.len(),
            out@ == tile_windows(tiles@.take(i as int)),
        decreases tiles.len() - i,
    {
        out.push(tiles[i].window);
        i += 1;
        assert(out@ =~= tile_windows(tiles@.take(i as int)));
    }
    assert(tiles@.take(tiles@.len() as int) == tiles@);
    out
}

/// The tiles the destination refresh may recapture: companions never take it.
pub open spec fn refreshable(tiles: Seq<OverlayTile>) -> Seq<(WindowId, WindowServerId, Size)>
    decreases tiles.len(),
{
    if tiles.len() == 0 {
        Seq::empty()
    } else {
        let before = refreshable(tiles.drop_last());
        let tile = tiles.last();
        if tile.companion {
            before
        } else {
            before.push((tile.window, WindowServerId(tile.window.idx), tile.to.size))
        }
    }
}

pub fn refreshable_tiles(tiles: &Vec<OverlayTile>) -> (r: Vec<(WindowId, WindowServerId, Size)>)
    ensures
        r@ == refreshable(tiles@),
{
    let mut out: Vec<(WindowId, WindowServerId, Size)> = Vec::new();
    let mut i: usize = 0;
    while i < tiles.len()
        invariant
            i <= tiles.len(),
            out@ == refreshable(tiles@.take(i as int)),
        decreases tiles.len() - i,
    {
        assert(tiles@.take(i + 1).drop_last() == tiles@.take(i as int));
        let tile: OverlayTile = tiles[i];
        if !tile.companion {
            out.push((tile.window, WindowServerId::from(tile.window), tile.to.size));
        }
        i += 1;
    }
    assert(tiles@.take(tiles@.len() as int) == tiles@);
    out
}

/// The windows named by a list of three.
pub open spec fn first_windows(entries: Seq<(WindowId, WindowServerId, Size)>) -> Seq<WindowId> {
    entries.map_values(|e: (WindowId, WindowServerId, Size)| e.0)
}

pub fn windows_of_entries(entries: &Vec<(WindowId, WindowServerId, Size)>) -> (r: Vec<WindowId>)
    ensures
        r@ == first_windows(entries@),
{
    let mut out: Vec<WindowId> = Vec::new();
    let mut i: usize = 0;
    while i < entries.len()
        invariant
            i <= entries.len(),
            out@ == first_windows(entries@.take(i as int)),
        decreases entries.len() - i,
    {
        out.push(entries[i].0);
        i += 1;
        assert(out@ =~= first_windows(entries@.take(i as int)));
    }
    assert(entries@.take(entries@.len() as int) == entries@);
    out
}

pub fn windows_of_targets(targets: &Vec<SnapshotTarget>) -> (r: Vec<WindowId>)
    ensures
        r@ == windows_of(targets@),
{
    let mut out: Vec<WindowId> = Vec::new();
    let mut i: usize = 0;
    while i < targets.len()
        invariant
            i <= targets.len(),
            out@ == windows_of(targets@.take(i as int)),
        decreases targets.len() - i,
    {
        out.push(targets[i].window);
        i += 1;
        assert(out@ =~= windows_of(targets@.take(i as int)));
    }
    assert(targets@.take(targets@.len() as int) == targets@);
    out
}

/// Targets for every window the window server lists, under identifiers derived from its numbers.
pub open spec fn synthetic_targets(visible: Seq<(WindowServerId, Rect)>) -> Seq<SnapshotTarget> {
    visible.map_values(
        |v: (WindowServerId, Rect)|
            SnapshotTarget { window: synthetic(v.0), server_id: v.0, size: v.1.size },
    )
}

/// Targets for every window the window server lists.
pub fn warm_cache(visible: &Vec<(WindowServerId, Rect)>) -> (r: Vec<SnapshotTarget>)
    ensures
        r@ == synthetic_targets(visible@),
{
    let mut out: Vec<SnapshotTarget> = Vec::new();
    let mut i: usize = 0;
    while i < visible.len()
        invariant
            i <= visible.len(),
            out@ == synthetic_targets(visible@.take(i as int)),
        decreases visible.len() - i,
    {
        let (server_id, frame): (WindowServerId, Rect) = visible[i];
        out.push(
            SnapshotTarget {
                window: synthetic_window_id(server_id),
                server_id,
                size: frame.size,
            },
        );
        i += 1;
        assert(out@ =~= synthetic_targets(visible@.take(i as int)));
    }
    assert(visible@.take(visible@.len() as int) == visible@);
    out
}

/// Every window on screen sliding in from an offset: purely to judge a movement by eye.
pub open spec fn slide_requests(
    visible: Seq<(WindowServerId, Rect)>,
    by: Point,
) -> Seq<AnimationRequest> {
    visible.map_values(
        |v: (WindowServerId, Rect)|
            AnimationRequest {
                window: synthetic(v.0),
                server_id: v.0,
                from: v.1.moved(by.x as int, by.y as int),
                to: v.1,
                floating: false,
            },
    )
}

/// Requests that slide every window on screen in from an offset; no real window is touched.
pub fn debug_slide(visible: &Vec<(WindowServerId, Rect)>, by: Point) -> (r: Vec<AnimationRequest>)
    requires
        listing_inside(visible@),
        by.inside(1),
    ensures
        r@ == slide_requests(visible@, by),
{
    let mut out: Vec<AnimationRequest> = Vec::new();
    let mut i: usize = 0;
    while i < visible.len()
        invariant
            i <= visible.len(),
            listing_inside(visible@),
            by.inside(1),
            out@ == slide_requests(visible@.take(i as int), by),
        decreases visible.len() - i,
    {
        assert(visible@[i as int].1.inside(1));
        let (server_id, frame): (WindowServerId, Rect) = visible[i];
        out.push(
            AnimationRequest {
                window: synthetic_window_id(server_id),
                server_id,
                from: frame.translated(by),
                to: frame,
                floating: false,
            },
        );
        i += 1;
        assert(out@ =~= slide_requests(visible@.take(i as int), by));
    }
    assert(visible@.take(visible@.len() as int) == visible@);
    out
}

/// Whether some tile of a pass moves.
pub open spec fn any_moves(tiles: Seq<OverlayTile>) -> bool {
    exists|i: int| 0 <= i < tiles.len() && moves((#[trigger] tiles[i]).from, tiles[i].to)
}

/// Whether some tile of a pass moves.
pub fn moving_drawable(tiles: &Vec<OverlayTile>) -> (r: bool)
    ensures
        r == any_moves(tiles@),
{
    let mut i: usize = 0;
    while i < tiles.len()
        invariant
            i <= tiles.len(),
            forall|j: int| 0 <= j < i ==> !moves((#[trigger] tiles[j]).from, tiles[j].to),
        decreases tiles.len() - i,
    {
        if is_moving(tiles[i].from, tiles[i].to) {
            assert(moves(tiles@[i as int].from, tiles@[i as int].to));
            return true;
        }
        i += 1;
    }
    false
}

impl FlightEngine {
    /// What every event keeps: the cache holds one picture per window, the display lies inside the
    /// limit, and a flight's apply point is a proper share of its way.
    pub open spec fn wf(&self) -> bool {
        &&& self.cache.wf()
        &&& self.display matches Some(display) ==> display.frame.inside(1)
        &&& self.running matches Some(flight) ==> flight.apply_at <= 100
    }

    /// An engine without a display, a flight or a picture.
    pub fn new() -> (r: FlightEngine)
        ensures
            r.wf(),
            r.cache@ == Map::<WindowId, WindowSnapshot>::empty(),
            r.display is None,
            r.running is None,
            r.coalesce is None,
            !r.quiet,
            r.after_flight is None,
            r.last_animated@.len() == 0,
            r.deferred_warm@.len() == 0,
            !r.deferred_desktop,
            r.last_focus is None,
            r.pictures == DisplayPictures::none(),
            !r.bar_refresh,
    {
        FlightEngine {
            cache: SnapshotCache::new(),
            display: None,
            running: None,
            coalesce: None,
            quiet: false,
            after_flight: None,
            last_animated: Vec::new(),
            deferred_warm: Vec::new(),
            deferred_desktop: false,
            last_focus: None,
            pictures: DisplayPictures {
                shown: None,
                desktop: None,
                bar: None,
                drawn_once: false,
            },
            bar_refresh: false,
        }
    }

    /// Where the flight is between composition and lift.
    pub fn phase(&self) -> (r: FlightPhase)
        ensures
            r == phase_with(self.running),
    {
        match &self.running {
            Some(flight) => flight.phase(),
            None => FlightPhase::Idle,
        }
    }

    /// Background captures for windows the layout identified: those that have no picture of their
    /// size, or a stale one. During a flight they wait instead. Returns the targets to request now.
    pub fn warm_windows(&mut self, targets: &Vec<SnapshotTarget>, now: u64) -> (r: Vec<
        SnapshotTarget,
    >)
        ensures
            old(self).running is Some ==> r@.len() == 0 && final(self).deferred_warm@
                == upserted_all(old(self).deferred_warm@, targets@),
            old(self).running is None ==> r@ == wanted_of(old(self).cache@, targets@, now)
                && final(self).deferred_warm == old(self).deferred_warm,
            *final(self) == (FlightEngine {
                deferred_warm: final(self).deferred_warm,
                ..*old(self)
            }),
    {
        let mut wanted: Vec<SnapshotTarget> = Vec::new();
        if !capture_work_allowed(self.phase(), CaptureKind::Warm) {
            defer_warm(&mut self.deferred_warm, targets);
            return wanted;
        }
        let mut i: usize = 0;
        while i < targets.len()
            invariant
                i <= targets.len(),
                wanted@ == wanted_of(self.cache@, targets@.take(i as int), now),
                *self == *old(self),
            decreases targets.len() - i,
        {
            assert(targets@.take(i + 1).drop_last() == targets@.take(i as int));
            let target: SnapshotTarget = targets[i];
            let due: bool = match self.cache.usable(target.window) {
                Some(held) => needs_capture(
                    Some(held.coverage),
                    (target.size.width, target.size.height),
                ) || picture_is_stale(age_of(held.taken, now)),
                None => true,
            };
            if due {
                wanted.push(target);
            }
            i += 1;
        }
        assert(targets@.take(targets@.len() as int) == targets@);
        wanted
    }

    /// The desktop render to ask for, if a flight does not put it off and there is a display.
    pub fn warm_desktop(&mut self) -> (r: Option<(u32, Size)>)
        ensures
            r == (if old(self).running is Some {
                None
            } else {
                match old(self).display {
                    Some(display) => Some((display.id, display.frame.size)),
                    None => None,
                }
            }),
            *final(self) == (FlightEngine {
                deferred_desktop: old(self).deferred_desktop || old(self).running is Some,
                ..*old(self)
            }),
    {
        if !capture_work_allowed(self.phase(), CaptureKind::Desktop) {
            self.deferred_desktop = true;
            return None;
        }
        match self.display {
            Some(display) => Some((display.id, display.frame.size)),
            None => None,
        }
    }

    /// Moves to a display. When it is another one, every picture of the last display is forgotten,
    /// the bar's refresh is armed and a desktop render is asked for, unless a flight puts it off.
    /// Returns whether it changed, and the render to ask for.
    pub fn set_display(&mut self, display: Display) -> (r: (bool, Option<(u32, Size)>))
        requires
            display.frame.inside(1),
            old(self).wf(),
        ensures
            final(self).wf(),
            r.0 == (old(self).display != Some(display)),
            r.1 == (if r.0 && old(self).running is None {
                Some((display.id, display.frame.size))
            } else {
                None
            }),
            *final(self) == (FlightEngine {
                display: Some(display),
                pictures: if r.0 {
                    DisplayPictures::none()
                } else {
                    old(self).pictures
                },
                bar_refresh: old(self).bar_refresh || r.0,
                deferred_desktop: old(self).deferred_desktop || (r.0 && old(
                    self,
                ).running is Some),
                ..*old(self)
            }),
    {
        let changed: bool = match self.display {
            Some(before) => before != display,
            None => true,
        };
        self.display = Some(display);
        if !changed {
            return (false, None);
        }
        let render: Option<(u32, Size)> = self.warm_desktop();
        // Anything in flight, and the desktop render, belong to the display just left.
        self.pictures.forget();
        self.bar_refresh = true;
        (true, render)
    }

    /// Drops the picture of a window that is gone.
    pub fn forget_window(&mut self, window: WindowId)
        requires
            old(self).wf(),
        ensures
            final(self).wf(),
            final(self).cache@ == old(self).cache@.remove(window),
            *final(self) == (FlightEngine { cache: final(self).cache, ..*old(self) }),
    {
        self.cache.forget(window);
    }

    /// How an incoming picture compares with the cached one. `cached_print` and `incoming_print`
    /// are their thumbprints, where the pictures are bitmaps that have one. With nothing cached the
    /// source counts as the same and the rendering as different.
    pub fn compare_with_cached(
        &self,
        window: WindowId,
        incoming: &WindowSnapshot,
        cached_print: Option<&Vec<u8>>,
        incoming_print: Option<&Vec<u8>>,
    ) -> (r: CacheComparison)
        ensures
            r == compared(
                self.cache@,
                window,
                *incoming,
                print_seen(cached_print),
                print_seen(incoming_print),
            ),
    {
        match self.cache.get(window) {
            None => CacheComparison { renders_like_cached: false, same_source: true },
            Some(cached) => {
                let same_source: bool = cached.source == incoming.source;
                if !cached.fits_like(incoming) {
                    return CacheComparison { renders_like_cached: false, same_source };
                }
                let bitmaps: bool = match (cached.image, incoming.image) {
                    (SnapshotImage::Bitmap(_), SnapshotImage::Bitmap(_)) => true,
                    _ => false,
                };
                let renders_like_cached: bool = match (cached_print, incoming_print) {
                    (Some(a), Some(b)) => bitmaps && renderings_match(a.as_slice(), b.as_slice()),
                    _ => false,
                };
                CacheComparison { renders_like_cached, same_source }
            },
        }
    }

    /// Starts an animation that is on screen but not yet moving. A hold waits for its reveal pixels
    /// or the deadline, and the timer fires again then; past the deadline the placeholder flies.
    pub fn start_moving(&mut self, now: u64) -> (r: Start)
        requires
            old(self).wf(),
        ensures
            final(self).wf(),
            r == (match old(self).running {
                Some(flight) => started_at(flight, now),
                None => Start::Nothing,
            }),
            final(self).coalesce == (match r {
                Start::Wait(wait) => Some(wait),
                _ => None,
            }),
            final(self).running is Some <==> old(self).running is Some,
            old(self).running is Some ==> starts_moving(
                old(self).running->0,
                final(self).running->0,
                now,
            ),
            *final(self) == (FlightEngine {
                coalesce: final(self).coalesce,
                running: final(self).running,
                ..*old(self)
            }),
    {
        self.coalesce = None;
        match &mut self.running {
            None => Start::Nothing,
            Some(flight) => {
                if flight.started.is_some() {
                    return Start::Nothing;
                }
                if flight.awaiting.len() > 0 {
                    if let Some(wait) = hold_wait(flight.hold_deadline, now) {
                        self.coalesce = Some(wait);
                        return Start::Wait(wait);
                    }
                    flight.awaiting.clear();
                }
                flight.started = Some(now);
                Start::Moving(flight.duration)
            },
        }
    }
}

/// A picture is as old as the time since it was taken, and never younger than new.
pub proof fn a_picture_ages_with_the_clock(taken: u64, now: u64)
    ensures
        now >= taken ==> age(taken, now) == now - taken,
        now <= taken ==> age(taken, now) == 0,
{
}

/// A window is captured when it has no usable picture, when its picture does not fit the size wanted,
/// or when that is over two seconds old; a fresh usable picture that fits is kept.
pub proof fn a_fresh_fitting_picture_is_not_taken_again(
    cache: Map<WindowId, WindowSnapshot>,
    target: SnapshotTarget,
    now: u64,
)
    ensures
        !cache.dom().contains(target.window) ==> wants_capture(cache, target, now),
        cache.dom().contains(target.window) ==> {
            let held = cache[target.window];
            let fits = crate::fit::fitting(
                held.coverage.covered,
                (target.size.width, target.size.height),
            );
            wants_capture(cache, target, now) <==> !held.coverage.usable() || !fits || now
                - held.taken > 2_000_000_000
        },
{
}

/// What is captured of a list of targets is those that want it, in order.
pub proof fn the_targets_wanted_are_kept_in_order(
    cache: Map<WindowId, WindowSnapshot>,
    targets: Seq<SnapshotTarget>,
    more: Seq<SnapshotTarget>,
    target: SnapshotTarget,
    now: u64,
)
    ensures
        wanted_of(cache, targets + more, now) == wanted_of(cache, targets, now) + wanted_of(
            cache,
            more,
            now,
        ),
        wanted_of(cache, seq![target], now) == (if wants_capture(cache, target, now) {
            seq![target]
        } else {
            Seq::empty()
        }),
        wanted_of(cache, targets, now).contains(target) <==> targets.contains(target)
            && wants_capture(cache, target, now),
    decreases targets.len() + more.len(),
{
    let one = seq![target];
    assert(one.drop_last() =~= Seq::empty());
    assert(wanted_of(cache, one.drop_last(), now) =~= Seq::empty());
    assert(Seq::empty().push(target) =~= one);
    if more.len() == 0 {
        assert(targets + more =~= targets);
        assert(wanted_of(cache, targets, now) + wanted_of(cache, more, now) =~= wanted_of(
            cache,
            targets,
            now,
        ));
    } else {
        the_targets_wanted_are_kept_in_order(cache, targets, more.drop_last(), target, now);
        assert((targets + more).drop_last() =~= targets + more.drop_last());
        assert((targets + more).last() == more.last());
        assert(wanted_of(cache, targets + more, now) =~= wanted_of(cache, targets, now) + wanted_of(
            cache,
            more,
            now,
        ));
    }
    if targets.len() > 0 {
        let rest = targets.drop_last();
        let last = targets.last();
        the_targets_wanted_are_kept_in_order(cache, rest, Seq::empty(), target, now);
        let before = wanted_of(cache, rest, now);
        assert(targets.contains(target) <==> rest.contains(target) || target == last) by {
            if rest.contains(target) {
                let i = choose|i: int| 0 <= i < rest.len() && rest[i] == target;
                assert(targets[i] == target);
            }
            assert(targets[targets.len() - 1] == last);
            if targets.contains(target) && target != last {
                let i = choose|i: int| 0 <= i < targets.len() && targets[i] == target;
                assert(rest[i] == target);
            }
        }
        assert(before.push(last).contains(target) <==> before.contains(target) || target == last) by {
            if before.contains(target) {
                let i = choose|i: int| 0 <= i < before.len() && before[i] == target;
                assert(before.push(last)[i] == target);
            }
            assert(before.push(last)[before.len() as int] == last);
        }
    }
}

/// Pictures render alike only where both are bitmaps of one size with thumbprints that match; a window
/// without a picture is like nothing, and by any source.
pub proof fn a_comparison_is_of_like_bitmaps(
    cache: Map<WindowId, WindowSnapshot>,
    window: WindowId,
    incoming: WindowSnapshot,
    cached_print: Option<Seq<u8>>,
    incoming_print: Option<Seq<u8>>,
)
    ensures
        ({
            let c = compared(cache, window, incoming, cached_print, incoming_print);
            &&& !cache.dom().contains(window) ==> !c.renders_like_cached && c.same_source
            &&& cache.dom().contains(window) ==> {
                &&& c.same_source <==> cache[window].source == incoming.source
                &&& c.renders_like_cached ==> cached_print is Some && incoming_print is Some
                    && cache[window].image is Bitmap && incoming.image is Bitmap
                &&& cached_print is Some && incoming_print is Some && cache[window].image is Bitmap
                    && incoming.image is Bitmap && alike(
                    cache[window].coverage.covered,
                    incoming.coverage.covered,
                ) ==> (c.renders_like_cached <==> renders_like(cached_print->0, incoming_print->0))
                &&& !alike(cache[window].coverage.covered, incoming.coverage.covered)
                    ==> !c.renders_like_cached
            }
        }),
{
}

/// A flight waits at frame zero only while something is awaited and its deadline lies ahead; once it
/// moves it waits for nothing, and starting it again changes nothing.
pub proof fn a_flight_starts_once(
    before: RunningAnimation,
    after: RunningAnimation,
    now: u64,
    later: u64,
)
    requires
        starts_moving(before, after, now),
    ensures
        started_at(before, now) is Wait <==> before.started is None && before.awaiting@.len() > 0
            && before.hold_deadline is Some && now < before.hold_deadline->0,
        started_at(before, now) is Nothing <==> before.started is Some,
        started_at(before, now) matches Start::Moving(time) ==> time == before.duration
            && after.started == Some(now) && after.awaiting@.len() == 0 && started_at(after, later)
            == Start::Nothing,
        started_at(before, now) !is Moving ==> after == before,
        after.tiles == before.tiles && after.final_frames == before.final_frames
            && after.frames_applied == before.frames_applied && after.duration == before.duration,
{
}

/// The windows watched before a lift are those placed that also have a tile, in the order placed.
pub proof fn a_watched_window_is_placed_and_drawn(
    frames: Seq<(WindowId, Rect)>,
    more: Seq<(WindowId, Rect)>,
    tiles: Seq<OverlayTile>,
    window: WindowId,
)
    ensures
        watched(frames + more, tiles) == watched(frames, tiles) + watched(more, tiles),
        watched(frames, tiles).contains(window) <==> listed(frames, window) && listed(tiles, window),
    decreases frames.len() + more.len(),
{
    if more.len() == 0 {
        assert(frames + more =~= frames);
        assert(watched(frames, tiles) + watched(more, tiles) =~= watched(frames, tiles));
    } else {
        a_watched_window_is_placed_and_drawn(frames, more.drop_last(), tiles, window);
        assert((frames + more).drop_last() =~= frames + more.drop_last());
        assert((frames + more).last() == more.last());
        assert(watched(frames + more, tiles) =~= watched(frames, tiles) + watched(more, tiles));
    }
    if frames.len() > 0 {
        let rest = frames.drop_last();
        let last = frames.last();
        a_watched_window_is_placed_and_drawn(rest, Seq::empty(), tiles, window);
        let before = watched(rest, tiles);
        assert(listed(frames, window) <==> listed(rest, window) || last.0 == window) by {
            if listed(rest, window) {
                let i = choose|i: int|
                    0 <= i < rest.len() && #[trigger] crate::keyed::Keyed::key(&rest[i]) == window;
                assert(frames[i] == rest[i]);
                assert(crate::keyed::Keyed::key(&frames[i]) == window);
            }
            if last.0 == window {
                assert(crate::keyed::Keyed::key(&frames[frames.len() - 1]) == window);
            }
            if listed(frames, window) && last.0 != window {
                let i = choose|i: int|
                    0 <= i < frames.len() && #[trigger] crate::keyed::Keyed::key(&frames[i])
                        == window;
                assert(rest[i] == frames[i]);
                assert(crate::keyed::Keyed::key(&rest[i]) == window);
            }
        }
        assert(before.push(last.0).contains(window) <==> before.contains(window) || window
            == last.0) by {
            if before.contains(window) {
                let i = choose|i: int| 0 <= i < before.len() && before[i] == window;
                assert(before.push(last.0)[i] == window);
            }
            assert(before.push(last.0)[before.len() as int] == last.0);
        }
    }
}

/// A refresh may recapture the tiles that are no borders, each under its window's own number and at
/// the size it ends with.
pub proof fn a_border_is_never_refreshed(tiles: Seq<OverlayTile>, k: int, i: int)
    ensures
        0 <= k < refreshable(tiles).len() ==> exists|j: int|
            {
                &&& 0 <= j < tiles.len()
                &&& !(#[trigger] tiles[j]).companion
                &&& refreshable(tiles)[k].0 == tiles[j].window
                &&& refreshable(tiles)[k].1.0 == tiles[j].window.idx
                &&& refreshable(tiles)[k].2 == tiles[j].to.size
            },
        0 <= i < tiles.len() && !tiles[i].companion ==> exists|j: int|
            0 <= j < refreshable(tiles).len() && (#[trigger] refreshable(tiles)[j]).0
                == tiles[i].window && refreshable(tiles)[j].2 == tiles[i].to.size,
    decreases tiles.len(),
{
    if tiles.len() > 0 {
        let rest = tiles.drop_last();
        a_border_is_never_refreshed(rest, k, i);
        let before = refreshable(rest);
        let all = refreshable(tiles);
        if 0 <= k < before.len() {
            let j = choose|j: int|
                {
                    &&& 0 <= j < rest.len()
                    &&& !(#[trigger] rest[j]).companion
                    &&& before[k].0 == rest[j].window
                    &&& before[k].1.0 == rest[j].window.idx
                    &&& before[k].2 == rest[j].to.size
                };
            assert(tiles[j] == rest[j]);
            assert(all[k] == before[k]);
        } else if 0 <= k < all.len() {
            assert(!tiles[tiles.len() - 1].companion);
        }
        if 0 <= i < rest.len() && !tiles[i].companion {
            assert(rest[i] == tiles[i]);
            let j = choose|j: int|
                0 <= j < before.len() && (#[trigger] before[j]).0 == rest[i].window && before[j].2
                    == rest[i].to.size;
            assert(all[j] == before[j]);
        } else if i == rest.len() && !tiles[i].companion {
            assert(all[before.len() as int].0 == tiles[i].window);
        }
    }
}

/// Every listed window is warmed, or slid in from the offset, one for one: under the identifier its
/// number makes, at the size it has, to where it stands.
pub proof fn every_listed_window_is_warmed_or_slid(
    visible: Seq<(WindowServerId, Rect)>,
    by: Point,
    i: int,
)
    requires
        listing_inside(visible),
        by.inside(1),
        0 <= i < visible.len(),
    ensures
        synthetic_targets(visible).len() == visible.len(),
        slide_requests(visible, by).len() == visible.len(),
        ({
            let target = synthetic_targets(visible)[i];
            let request = slide_requests(visible, by)[i];
            &&& target.server_id == visible[i].0 && target.size == visible[i].1.size
            &&& target.window.pid == 0
            &&& visible[i].0.0 != 0 ==> target.window.idx == visible[i].0.0
            &&& request.window == target.window && request.server_id == visible[i].0
            &&& request.to == visible[i].1 && request.from.size == visible[i].1.size
            &&& request.from.origin.x == visible[i].1.origin.x + by.x
            &&& request.from.origin.y == visible[i].1.origin.y + by.y
            &&& !request.floating
        }),
{
    assert(visible[i].1.inside(1));
}

/// During a flight nothing is captured for a warm: what is asked for waits, one per window.
pub proof fn a_warm_waits_for_the_flight(
    engine: &mut FlightEngine,
    targets: Vec<SnapshotTarget>,
    now: u64,
    wanted: Vec<SnapshotTarget>,
    i: int,
)
    requires
        call_ensures(FlightEngine::warm_windows, (engine, &targets, now), wanted),
        0 <= i < targets@.len(),
        crate::keyed::one_each(old(engine).deferred_warm@),
    ensures
        old(engine).running is Some ==> wanted@.len() == 0 && listed(
            final(engine).deferred_warm@,
            targets@[i].window,
        ),
        old(engine).running is None ==> final(engine).deferred_warm == old(engine).deferred_warm && (
        wanted@.contains(targets@[i]) <==> wants_capture(old(engine).cache@, targets@[i], now)),
        final(engine).cache == old(engine).cache,
        final(engine).running == old(engine).running,
{
    if old(engine).running is Some {
        crate::keyed::upserting_all_lists_both(
            old(engine).deferred_warm@,
            targets@,
            targets@[i].window,
        );
        assert(crate::keyed::Keyed::key(&targets@[i]) == targets@[i].window);
    } else {
        the_targets_wanted_are_kept_in_order(
            old(engine).cache@,
            targets@,
            Seq::empty(),
            targets@[i],
            now,
        );
    }
}

/// Another display has every picture of the last one forgotten, the bar recaptured and the desktop
/// rendered, at once or after the flight; the display already there changes nothing.
pub proof fn a_display_change_forgets_its_pictures(
    engine: &mut FlightEngine,
    display: Display,
    r: (bool, Option<(u32, Size)>),
)
    requires
        call_ensures(FlightEngine::set_display, (engine, display), r),
        display.frame.inside(1),
        old(engine).wf(),
    ensures
        final(engine).display == Some(display),
        r.0 <==> old(engine).display != Some(display),
        !r.0 ==> *final(engine) == *old(engine) && r.1 is None,
        r.0 ==> {
            &&& final(engine).pictures.shown is None && final(engine).pictures.desktop is None
            &&& final(engine).pictures.bar is None && !final(engine).pictures.drawn_once
            &&& final(engine).bar_refresh
            &&& old(engine).running is None ==> r.1 is Some && (r.1->0).0 == display.id && (
            r.1->0).1 == display.frame.size
            &&& old(engine).running is Some ==> r.1 is None && final(engine).deferred_desktop
        },
        final(engine).cache == old(engine).cache,
        final(engine).running == old(engine).running,
{
}

/// A render is asked for at the display's own size, unless a flight is up; then it is owed.
pub proof fn a_render_waits_for_the_flight(engine: &mut FlightEngine, r: Option<(u32, Size)>)
    requires
        call_ensures(FlightEngine::warm_desktop, (engine,), r),
    ensures
        old(engine).running is Some ==> r is None && final(engine).deferred_desktop,
        old(engine).running is None ==> final(engine).deferred_desktop == old(engine).deferred_desktop
            && (r is Some <==> old(engine).display is Some),
        r matches Some(render) ==> render.0 == (old(engine).display->0).id
            && render.1 == (old(engine).display->0).frame.size,
{
}

/// Forgetting a window drops its picture and no other.
pub proof fn forgetting_drops_one_picture(
    engine: &mut FlightEngine,
    window: WindowId,
    other: WindowId,
    done: (),
)
    requires
        call_ensures(FlightEngine::forget_window, (engine, window), done),
        old(engine).wf(),
    ensures
        !final(engine).cache@.dom().contains(window),
        other != window ==> (final(engine).cache@.dom().contains(other) <==> old(engine).cache@.dom().contains(other)),
        other != window && old(engine).cache@.dom().contains(other) ==> final(engine).cache@[other]
            == old(engine).cache@[other],
        final(engine).running == old(engine).running,
{
}

/// A start that waits arms the timer for as long as it waits, and any other leaves it unarmed; without
/// a flight there is nothing to start, and no phase but idleness.
pub proof fn a_start_arms_the_timer_to_wait(engine: &mut FlightEngine, now: u64, start: Start)
    requires
        call_ensures(FlightEngine::start_moving, (engine, now), start),
        old(engine).wf(),
    ensures
        start matches Start::Wait(wait) ==> final(engine).coalesce == Some(wait)
            && final(engine).running == old(engine).running,
        start !is Wait ==> final(engine).coalesce is None,
        old(engine).running is None ==> start == Start::Nothing && phase_with(old(engine).running)
            == FlightPhase::Idle,
        old(engine).running is Some ==> phase_with(old(engine).running) != FlightPhase::Idle,
        start matches Start::Moving(time) ==> (final(engine).running->0).started == Some(now) && time
            == (old(engine).running->0).duration,
        final(engine).cache == old(engine).cache,
{
}

/// Every listed window is warmed at the size it has and slid in from the offset to where it stands.
pub proof fn a_listed_window_is_warmed_and_slid(
    visible: Vec<(WindowServerId, Rect)>,
    by: Point,
    targets: Vec<SnapshotTarget>,
    requests: Vec<AnimationRequest>,
    i: int,
)
    requires
        listing_inside(visible@),
        by.inside(1),
        call_ensures(warm_cache, (&visible,), targets),
        call_ensures(debug_slide, (&visible, by), requests),
        0 <= i < visible@.len(),
    ensures
        targets@.len() == visible@.len() && requests@.len() == visible@.len(),
        targets@[i].server_id == visible@[i].0 && targets@[i].size == visible@[i].1.size,
        requests@[i].to == visible@[i].1 && requests@[i].server_id == visible@[i].0,
        requests@[i].from.origin.x == visible@[i].1.origin.x + by.x,
        requests@[i].from.origin.y == visible@[i].1.origin.y + by.y,
{
    every_listed_window_is_warmed_or_slid(visible@, by, i);
}

} // verus!
