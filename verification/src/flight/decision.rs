//! The decisions a flight makes, each from plain values: when a picture may be swapped, what capture
//! work may start, what holds at frame zero, when the overlay lifts.
use vstd::prelude::*;

use crate::fit::{picture_is_stale, spans, spans_display, Extent};
use crate::geometry::{
    distance, distance_between, greater, is_off_screen, off_screen, same_frame, Rect, SameAs, Size,
};
use crate::ids::{WindowId, WindowServerId};
use crate::keyed::{
    add, add_all, added, added_all, copied, find, get, holds, listed, lookup, upsert_all,
    upserted_all, Keyed,
};
use crate::surface::{in_overlay, to_overlay_space};
use crate::time::{Progress, SECOND};

verus! {

/// How long to collect layout passes before the movement starts.
pub const COALESCE_WINDOW: u64 = 25_000_000;

/// The interval of a flight's ticks. Nothing is drawn on ticks; they only pace the mid-flight work.
pub const FRAME_INTERVAL: u64 = 16_667_000;

/// Progress, in hundredths, at which the focus change's two ends are recaptured, once per flight.
pub const REFRESH_DESTINATION_AT: u8 = 50;

/// A refresh landing at or after this progress is cached only; a later cut reads as lift flicker.
pub const REFRESH_APPLY_BEFORE: u8 = 60;

/// How long after an animation to recapture the bar: a burst of switches pays for it once, at the
/// end.
pub const BAR_REFRESH_DELAY: u64 = 250_000_000;

/// Progress, in hundredths, at which a move-only layout flight places the real windows.
pub const APPLY_FRAMES_AT: u8 = 75;

/// The earlier apply point when a window resizes: the resize costs three round trips into the
/// owning app.
pub const APPLY_FRAMES_AT_RESIZE: u8 = 50;

/// The apply point for a strip movement: frame zero, so a switch's writes land before lift.
pub const APPLY_FRAMES_AT_PAN: u8 = 0;

/// A real window further than this from its intended frame at lift is a handover miss.
pub const HANDOVER_THRESHOLD_PT: i64 = 2_000;

/// The longest a flight stands still at frame zero for a reveal.
pub const HOLD_CAP: u64 = 300_000_000;

/// The shortest a hold waits before it looks again.
pub const HOLD_RECHECK: u64 = 10_000_000;

/// How often a chase looks at a growing window.
pub const REVEAL_CHASE_INTERVAL: u64 = 8_000_000;

/// How many times a chase looks before it gives up, about a second in all.
pub const REVEAL_CHASE_ATTEMPTS: usize = 125;

/// How long after a lift the flight's owed captures wait for the user to stop pressing.
pub const SETTLE_BEFORE_CAPTURES: u64 = 400_000_000;

/// How long past its clock a flight waits for the render server and the real windows before lifting
/// anyway.
pub const LIFT_GRACE: u64 = 350_000_000;

/// How many new windows one pass captures at spawn; the rest take a reservation.
pub const MAX_SYNC_ENTRANCE_CAPTURES: usize = 4;

/// A window somebody wants a picture of, at a size.
#[derive(Clone, Copy, PartialEq, Eq, Structural, Debug)]
pub struct SnapshotTarget {
    pub window: WindowId,
    pub server_id: WindowServerId,
    pub size: Size,
}

impl Keyed for SnapshotTarget {
    open spec fn key(&self) -> WindowId {
        self.window
    }

    fn key_of(&self) -> (r: WindowId) {
        self.window
    }
}

/// A window that joins the animation as soon as it has a picture. The flight holds at frame zero
/// for it.
#[derive(Clone, Copy, PartialEq, Eq, Structural, Debug)]
pub struct PendingEntrance {
    pub window: WindowId,
    /// Destination, in the overlay's coordinate space.
    pub to: Rect,
    pub floating: bool,
}

impl Keyed for PendingEntrance {
    open spec fn key(&self) -> WindowId {
        self.window
    }

    fn key_of(&self) -> (r: WindowId) {
        self.window
    }
}

/// The two ends of a focus change that are among `tiles`: the new one first.
pub open spec fn focus_ends(
    previous: Option<WindowId>,
    current: Option<WindowId>,
    tiles: Seq<WindowId>,
) -> Seq<WindowId> {
    if current is None || previous == current {
        Seq::empty()
    } else {
        (if tiles.contains(current->0) {
            seq![current->0]
        } else {
            Seq::empty()
        }) + (if previous is Some && tiles.contains(previous->0) {
            seq![previous->0]
        } else {
            Seq::empty()
        })
    }
}

/// Listed among windows and contained in their sequence are one thing.
pub proof fn listed_is_contained(windows: Seq<WindowId>, window: WindowId)
    ensures
        listed(windows, window) == windows.contains(window),
{
    if windows.contains(window) {
        let i = choose|i: int| 0 <= i < windows.len() && windows[i] == window;
        assert(windows[i].key() == window);
    }
}

/// Whether `window` is among `windows`.
pub fn contains(windows: &Vec<WindowId>, window: WindowId) -> (r: bool)
    ensures
        r == windows@.contains(window),
{
    proof {
        listed_is_contained(windows@, window);
    }
    holds(windows, window)
}

/// Which of `tiles` to recapture mid-flight: the two ends of a focus change, and nothing else.
pub fn refresh_targets(
    previous: Option<WindowId>,
    current: Option<WindowId>,
    tiles: &Vec<WindowId>,
) -> (r: Vec<WindowId>)
    ensures
        r@ == focus_ends(previous, current, tiles@),
{
    let mut out: Vec<WindowId> = Vec::new();
    match current {
        None => {},
        Some(now) => {
            let same: bool = match previous {
                Some(then) => then == now,
                None => false,
            };
            if !same {
                if contains(tiles, now) {
                    out.push(now);
                }
                if let Some(then) = previous {
                    if contains(tiles, then) {
                        out.push(then);
                    }
                }
            }
        },
    }
    assert(out@ =~= focus_ends(previous, current, tiles@));
    out
}

/// One target per wanted window that has a tile, in the order wanted.
pub open spec fn requests_for(
    tiles: Seq<(WindowId, WindowServerId, Size)>,
    wanted: Seq<WindowId>,
) -> Seq<SnapshotTarget>
    decreases wanted.len(),
{
    if wanted.len() == 0 {
        Seq::empty()
    } else {
        let before = requests_for(tiles, wanted.drop_last());
        match lookup(tiles, wanted.last()) {
            Some(tile) => before.push(
                SnapshotTarget { window: tile.0, server_id: tile.1, size: tile.2 },
            ),
            None => before,
        }
    }
}

/// The windows of a list of targets.
pub open spec fn windows_of(targets: Seq<SnapshotTarget>) -> Seq<WindowId> {
    targets.map_values(|t: SnapshotTarget| t.window)
}

/// The destination refresh's requests: one target per wanted window, and the windows covered. One
/// route only, so the refresh compares like with like against the cache.
pub fn refresh_requests(
    tiles: &Vec<(WindowId, WindowServerId, Size)>,
    wanted: &Vec<WindowId>,
) -> (r: (Vec<WindowId>, Vec<SnapshotTarget>))
    ensures
        r.1@ == requests_for(tiles@, wanted@),
        r.0@ == windows_of(r.1@),
{
    let mut covered: Vec<WindowId> = Vec::new();
    let mut requests: Vec<SnapshotTarget> = Vec::new();
    let mut i: usize = 0;
    while i < wanted.len()
        invariant
            i <= wanted.len(),
            requests@ == requests_for(tiles@, wanted@.take(i as int)),
            covered@ == windows_of(requests@),
        decreases wanted.len() - i,
    {
        assert(wanted@.take(i + 1).drop_last() == wanted@.take(i as int));
        if let Some(tile) = get(tiles, wanted[i]) {
            let target: SnapshotTarget = SnapshotTarget {
                window: tile.0,
                server_id: tile.1,
                size: tile.2,
            };
            requests.push(target);
            covered.push(tile.0);
            assert(covered@ =~= windows_of(requests@));
        }
        i += 1;
    }
    assert(wanted@.take(wanted@.len() as int) == wanted@);
    (covered, requests)
}

/// How much larger than the window it traces a border window may be, and how far the middles may
/// disagree: between a point smaller and eight points larger on each axis, four points apart.
pub open spec fn traces(frame: Rect, candidate: Rect) -> bool {
    let dw = candidate.size.width - frame.size.width;
    let dh = candidate.size.height - frame.size.height;
    &&& -1_000 <= dw <= 8_000
    &&& -1_000 <= dh <= 8_000
    &&& distance((candidate.left() + candidate.right()) - (frame.left() + frame.right())) <= 8_000
    &&& distance((candidate.top() + candidate.bottom()) - (frame.top() + frame.bottom())) <= 8_000
}

/// The first candidate on screen that traces `frame` stands at `i`.
pub open spec fn first_tracer(
    frame: Rect,
    candidates: Seq<(WindowServerId, Rect)>,
    display: Rect,
    i: int,
) -> bool {
    &&& 0 <= i < candidates.len()
    &&& !off_screen(display, candidates[i].1) && traces(frame, candidates[i].1)
    &&& forall|j: int|
        0 <= j < i ==> off_screen(display, (#[trigger] candidates[j]).1) || !traces(
            frame,
            candidates[j].1,
        )
}

fn traces_frame(frame: Rect, candidate: Rect) -> (r: bool)
    ensures
        r == traces(frame, candidate),
{
    let dw: i128 = candidate.size.width as i128 - frame.size.width as i128;
    let dh: i128 = candidate.size.height as i128 - frame.size.height as i128;
    let dx: i128 = candidate.origin.x as i128 + candidate.max_x() - (frame.origin.x as i128
        + frame.max_x());
    let dy: i128 = candidate.origin.y as i128 + candidate.max_y() - (frame.origin.y as i128
        + frame.max_y());
    -1_000 <= dw && dw <= 8_000 && -1_000 <= dh && dh <= 8_000 && -8_000 <= dx && dx <= 8_000
        && -8_000 <= dy && dy <= 8_000
}

/// The unmanaged window tracing `frame` as its border, if any. A parked window never traces and is
/// never traced.
pub open spec fn companion(
    frame: Rect,
    candidates: Seq<(WindowServerId, Rect)>,
    display: Rect,
) -> Option<(WindowServerId, Rect)> {
    if !off_screen(display, frame) && exists|i: int| first_tracer(frame, candidates, display, i) {
        Some(candidates[choose|i: int| first_tracer(frame, candidates, display, i)])
    } else {
        None
    }
}

/// Only one place holds the first tracer.
pub proof fn the_first_tracer_is_one(
    frame: Rect,
    candidates: Seq<(WindowServerId, Rect)>,
    display: Rect,
    i: int,
    j: int,
)
    requires
        first_tracer(frame, candidates, display, i),
        first_tracer(frame, candidates, display, j),
    ensures
        i == j,
{
    assert(candidates[i] == candidates[i] && candidates[j] == candidates[j]);
}

/// The unmanaged window tracing `frame` as its border, if any.
pub fn companion_of(frame: Rect, candidates: &Vec<(WindowServerId, Rect)>, display: Rect) -> (r:
    Option<(WindowServerId, Rect)>)
    ensures
        r == companion(frame, candidates@, display),
        r is Some <==> !off_screen(display, frame) && exists|i: int|
            0 <= i < candidates.len() && !off_screen(display, (#[trigger] candidates[i]).1)
                && traces(frame, candidates[i].1),
{
    if is_off_screen(display, frame) {
        return None;
    }
    let mut i: usize = 0;
    while i < candidates.len()
        invariant
            i <= candidates.len(),
            !off_screen(display, frame),
            forall|j: int|
                0 <= j < i ==> off_screen(display, (#[trigger] candidates[j]).1) || !traces(
                    frame,
                    candidates[j].1,
                ),
        decreases candidates.len() - i,
    {
        let (id, candidate): (WindowServerId, Rect) = candidates[i];
        if !is_off_screen(display, candidate) && traces_frame(frame, candidate) {
            proof {
                assert(first_tracer(frame, candidates@, display, i as int));
                let c = choose|c: int| first_tracer(frame, candidates@, display, c);
                the_first_tracer_is_one(frame, candidates@, display, i as int, c);
            }
            return Some((id, candidate));
        }
        i += 1;
    }
    proof {
        if exists|c: int| first_tracer(frame, candidates@, display, c) {
            let c = choose|c: int| first_tracer(frame, candidates@, display, c);
            assert(candidates[c] == candidates[c]);
        }
    }
    None
}

/// Zero width at its own left edge, full height.
pub open spec fn grown_from(to: Rect) -> Rect {
    Rect { origin: to.origin, size: Size { width: 0, height: to.size.height } }
}

/// Where an entering window grows in from: zero width at its own left edge, full height.
pub fn entrance_from(to: Rect) -> (r: Rect)
    ensures
        r == grown_from(to),
{
    Rect { origin: to.origin, size: Size { width: 0, height: to.size.height } }
}

/// Which path composed a flight.
#[derive(Clone, Copy, PartialEq, Eq, Structural, Debug)]
pub enum FlightKind {
    /// A per-window layout pass: moves and resizes.
    Layout,
    /// A strip movement: pure translations.
    Pan,
}

/// Which apply point an animation needs, in hundredths of the way.
pub fn apply_frames_at(kind: FlightKind, any_resize: bool) -> (r: u8)
    ensures
        any_resize ==> r == 50,
        !any_resize && kind == FlightKind::Layout ==> r == 75,
        !any_resize && kind == FlightKind::Pan ==> r == 0,
        r <= 100,
{
    if any_resize {
        APPLY_FRAMES_AT_RESIZE
    } else {
        match kind {
            FlightKind::Layout => APPLY_FRAMES_AT,
            FlightKind::Pan => APPLY_FRAMES_AT_PAN,
        }
    }
}

/// What a tile is doing when a picture of its window lands mid-flight.
#[derive(Clone, Copy, PartialEq, Eq, Structural, Debug)]
pub enum TileState {
    /// No tile for this window in the flight.
    NotTiled,
    /// The flight holds for this window's first picture: an entrance reservation.
    Awaiting,
    /// A grow waiting for its reveal, held or flying the placeholder. `fits`: the landed picture
    /// covers the destination.
    Reveal { fits: bool },
    /// An ordinary moving tile. `fits`: the picture covers the destination; `resizing`: the tile
    /// changes size in flight.
    Moving { fits: bool, resizing: bool },
    /// A moving tile whose picture is the flight's own destination refresh.
    MovingRefreshTarget { fits: bool, resizing: bool },
}

/// Why a picture is cut onto a moving tile.
#[derive(Clone, Copy, PartialEq, Eq, Structural, Debug)]
pub enum SwapReason {
    Reveal,
    Refresh,
}

impl SwapReason {
    /// The word for the log.
    pub fn label(self) -> (r: &'static str)
        ensures
            r@ == (match self {
                SwapReason::Reveal => "reveal"@,
                SwapReason::Refresh => "refresh"@,
            }),
    {
        match self {
            SwapReason::Reveal => "reveal",
            SwapReason::Refresh => "refresh",
        }
    }
}

/// What to do with a picture that landed while a flight is running, after it is cached.
#[derive(Clone, Copy, PartialEq, Eq, Structural, Debug)]
pub enum SwapDecision {
    /// A held flight takes it at frame zero.
    Claim,
    /// A moving flight adds the entrance late.
    Admit,
    /// Hard-cut onto the moving tile.
    Swap(SwapReason),
    /// Cache only, for the next flight.
    CacheOnly,
}

/// How an incoming picture compares with the one cached for its window, judged before caching.
#[derive(Clone, Copy, PartialEq, Eq, Structural, Debug)]
pub struct CacheComparison {
    /// Renders the same within tolerance; pictures that cannot be compared count as different.
    pub renders_like_cached: bool,
    /// Captured by the same route as the cached picture. Routes render a translucent window
    /// differently, so a route change alone reads as a change.
    pub same_source: bool,
}

/// The flight moves and is not yet 60 hundredths of the way.
pub open spec fn early(progress: Option<Progress>) -> bool {
    progress matches Some(p) && !p.at_least(60)
}

/// The rule for a picture landing mid-flight.
pub open spec fn swap_rule(
    state: TileState,
    settled: bool,
    renders_like_cached: bool,
    same_source: bool,
    progress: Option<Progress>,
) -> SwapDecision {
    match state {
        TileState::Awaiting => if progress is None {
            SwapDecision::Claim
        } else {
            SwapDecision::Admit
        },
        TileState::Reveal { fits } => if progress is None {
            SwapDecision::Claim
        } else if fits && settled && early(progress) {
            SwapDecision::Swap(SwapReason::Reveal)
        } else {
            SwapDecision::CacheOnly
        },
        TileState::MovingRefreshTarget { fits, resizing } => if fits && same_source
            && !renders_like_cached && (!resizing || settled) && early(progress) {
            SwapDecision::Swap(SwapReason::Refresh)
        } else {
            SwapDecision::CacheOnly
        },
        TileState::NotTiled => SwapDecision::CacheOnly,
        TileState::Moving { .. } => SwapDecision::CacheOnly,
    }
}

/// Whether a picture landing mid-flight may change what a tile draws. `progress` is `None` before
/// the flight starts moving.
pub fn should_swap_mid_flight(
    state: TileState,
    settled: bool,
    renders_like_cached: bool,
    same_source: bool,
    progress: Option<Progress>,
) -> (r: SwapDecision)
    ensures
        r == swap_rule(state, settled, renders_like_cached, same_source, progress),
{
    let in_time: bool = match progress {
        Some(p) => !p.reached(REFRESH_APPLY_BEFORE),
        None => false,
    };
    match state {
        TileState::Awaiting => if progress.is_none() {
            SwapDecision::Claim
        } else {
            SwapDecision::Admit
        },
        TileState::Reveal { fits } => if progress.is_none() {
            SwapDecision::Claim
        } else if fits && settled && in_time {
            SwapDecision::Swap(SwapReason::Reveal)
        } else {
            SwapDecision::CacheOnly
        },
        TileState::MovingRefreshTarget { fits, resizing } => if fits && same_source
            && !renders_like_cached && (!resizing || settled) && in_time {
            SwapDecision::Swap(SwapReason::Refresh)
        } else {
            SwapDecision::CacheOnly
        },
        TileState::NotTiled => SwapDecision::CacheOnly,
        TileState::Moving { fits: _, resizing: _ } => SwapDecision::CacheOnly,
    }
}

/// A refresh is cut onto a tile only when it came by the cached picture's own route, renders
/// differently and lands early; a reveal only when it is settled, fits and lands early; an ordinary
/// moving tile never changes its picture.
pub proof fn only_early_reveals_and_refreshes_swap(
    state: TileState,
    settled: bool,
    same: bool,
    same_source: bool,
    progress: Option<Progress>,
)
    ensures
        ({
            let decision = swap_rule(state, settled, same, same_source, progress);
            &&& decision is Swap ==> early(progress)
            &&& decision == SwapDecision::Swap(SwapReason::Refresh) ==> same_source && !same
                && state is MovingRefreshTarget
            &&& decision == SwapDecision::Swap(SwapReason::Reveal) ==> settled && state == (
                TileState::Reveal { fits: true })
            &&& state is Moving ==> decision == SwapDecision::CacheOnly
            &&& decision == SwapDecision::Claim ==> progress is None
            &&& decision == SwapDecision::Admit ==> progress is Some && state is Awaiting
        }),
{
}

/// Where a flight is between composition and lift.
#[derive(Clone, Copy, PartialEq, Eq, Structural, Debug)]
pub enum FlightPhase {
    /// No flight.
    Idle,
    /// Composed, overlay up, not yet moving, nothing awaited.
    FrameZero,
    /// Overlay up, waiting at frame zero for reveal or entrance pictures.
    Holding,
    /// Tiles in motion.
    Moving,
}

/// A request to the window server that a flight might make.
#[derive(Clone, Copy, PartialEq, Eq, Structural, Debug)]
pub enum CaptureKind {
    /// Background captures for windows the layout named.
    Warm,
    /// The full-display desktop render.
    Desktop,
    /// The destination recapture.
    Refresh,
    /// A reveal or entrance chase.
    Chase,
    /// A hairline harvest for a landed snapshot.
    Harvest,
    /// A capture for a window that had no picture at composition.
    NeedsCapture,
}

/// What a flight in `phase` lets start: everything without a flight; a chase at any time; a missing
/// picture at frame zero; the destination refresh while moving.
pub open spec fn allows(phase: FlightPhase, kind: CaptureKind) -> bool {
    ||| phase == FlightPhase::Idle
    ||| kind == CaptureKind::Chase
    ||| (phase == FlightPhase::FrameZero && kind == CaptureKind::NeedsCapture)
    ||| (phase == FlightPhase::Moving && kind == CaptureKind::Refresh)
}

/// Whether a flight in `phase` may start `kind` of capture work now.
pub fn capture_work_allowed(phase: FlightPhase, kind: CaptureKind) -> (r: bool)
    ensures
        r == allows(phase, kind),
{
    match phase {
        FlightPhase::Idle => true,
        FlightPhase::FrameZero => kind == CaptureKind::Chase || kind == CaptureKind::NeedsCapture,
        FlightPhase::Holding => kind == CaptureKind::Chase,
        FlightPhase::Moving => kind == CaptureKind::Chase || kind == CaptureKind::Refresh,
    }
}

/// Parks warm targets asked for mid-flight, one per window; the latest request wins.
pub fn defer_warm(deferred: &mut Vec<SnapshotTarget>, targets: &Vec<SnapshotTarget>)
    ensures
        final(deferred)@ == upserted_all(old(deferred)@, targets@),
{
    upsert_all(deferred, targets);
}

/// The window was not harvested, is not being captured anew and wears no hairline yet.
pub open spec fn undressed(
    window: WindowId,
    harvested: Seq<WindowId>,
    requested: Seq<WindowId>,
    dressed: Seq<WindowId>,
) -> bool {
    !harvested.contains(window) && !requested.contains(window) && !dressed.contains(window)
}

/// The animated windows that are still undressed, each once, in the order they were animated.
pub open spec fn harvest_set(
    animated: Seq<WindowId>,
    harvested: Seq<WindowId>,
    requested: Seq<WindowId>,
    dressed: Seq<WindowId>,
) -> Seq<WindowId>
    decreases animated.len(),
{
    if animated.len() == 0 {
        Seq::empty()
    } else {
        let before = harvest_set(animated.drop_last(), harvested, requested, dressed);
        if undressed(animated.last(), harvested, requested, dressed) {
            added(before, animated.last())
        } else {
            before
        }
    }
}

/// Which animated windows are harvested for a hairline once a flight is over: each at most once.
pub fn finish_harvest_set(
    animated: &Vec<WindowId>,
    harvested: &Vec<WindowId>,
    requested: &Vec<WindowId>,
    dressed: &Vec<WindowId>,
) -> (r: Vec<WindowId>)
    ensures
        r@ == harvest_set(animated@, harvested@, requested@, dressed@),
{
    let mut out: Vec<WindowId> = Vec::new();
    let mut i: usize = 0;
    while i < animated.len()
        invariant
            i <= animated.len(),
            out@ == harvest_set(animated@.take(i as int), harvested@, requested@, dressed@),
        decreases animated.len() - i,
    {
        assert(animated@.take(i + 1).drop_last() == animated@.take(i as int));
        let window: WindowId = animated[i];
        if !contains(harvested, window) && !contains(requested, window) && !contains(
            dressed,
            window,
        ) {
            crate::keyed::add(&mut out, window);
        }
        i += 1;
    }
    assert(animated@.take(animated@.len() as int) == animated@);
    out
}

/// Each window is harvested at most once per flight, and exactly the undressed ones among the
/// animated are.
pub proof fn each_window_is_harvested_at_most_once(
    animated: Seq<WindowId>,
    harvested: Seq<WindowId>,
    requested: Seq<WindowId>,
    dressed: Seq<WindowId>,
)
    ensures
        harvest_set(animated, harvested, requested, dressed).no_duplicates(),
        forall|w: WindowId| #[trigger]
            harvest_set(animated, harvested, requested, dressed).contains(w) <==> animated.contains(
                w,
            ) && undressed(w, harvested, requested, dressed),
    decreases animated.len(),
{
    if animated.len() > 0 {
        let rest = animated.drop_last();
        let last = animated.last();
        each_window_is_harvested_at_most_once(rest, harvested, requested, dressed);
        let before = harvest_set(rest, harvested, requested, dressed);
        let after = harvest_set(animated, harvested, requested, dressed);
        listed_is_contained(before, last);
        assert(animated == rest.push(last));
        assert forall|w: WindowId| #[trigger] after.contains(w) <==> animated.contains(w)
            && undressed(w, harvested, requested, dressed) by {
            assert(animated.contains(w) <==> rest.contains(w) || w == last) by {
                if rest.contains(w) {
                    let i = choose|i: int| 0 <= i < rest.len() && rest[i] == w;
                    assert(animated[i] == w);
                }
                if w == last {
                    assert(animated[animated.len() - 1] == w);
                }
            }
            assert(before.push(last).contains(w) <==> before.contains(w) || w == last) by {
                if before.contains(w) {
                    let i = choose|i: int| 0 <= i < before.len() && before[i] == w;
                    assert(before.push(last)[i] == w);
                }
                assert(before.push(last)[before.len() as int] == last);
            }
        }
    } else {
        assert(harvest_set(animated, harvested, requested, dressed) =~= Seq::empty());
    }
}

/// There is no render, it is of another display, or it is stale.
pub open spec fn render_wanted(render: Option<(u64, Extent)>, display: (i64, i64)) -> bool {
    render matches Some((age, covered)) ==> !spans(covered, display) || age > 2 * SECOND
}

/// Whether a new desktop render should be asked for: missing, for another display, or stale.
/// `render` is the age of the render in hand and the extent it covers.
pub fn desktop_render_wanted(render: Option<(u64, Extent)>, display: (i64, i64)) -> (r: bool)
    ensures
        r == render_wanted(render, display),
{
    match render {
        None => true,
        Some((age, covered)) => !spans_display(covered, display) || picture_is_stale(age),
    }
}

/// Whether an in-flight merge leaves the already-applied frames stale. A parked window has no tile,
/// so `frames_changed` counts too.
pub fn mark_stale_on_untiled_change(changed: bool, frames_changed: bool) -> (r: bool)
    ensures
        r == (changed || frames_changed),
{
    changed || frames_changed
}

/// How far the real windows were from their tiles at lift.
#[derive(Clone, Copy, PartialEq, Eq, Structural, Debug)]
pub struct HandoverReport {
    /// Windows measured: tiled, answered by the server, intended on screen.
    pub total: usize,
    /// Windows further off than [`HANDOVER_THRESHOLD_PT`].
    pub count_over: usize,
    /// The largest error among the windows measured, in thousandths of a point.
    pub worst_visible_pt: i128,
    /// The first window with that error.
    pub worst_wsid: u32,
}

/// The window is tiled, intended on screen and answered for. A park is not measured: the system
/// clamps it.
pub open spec fn measured(
    entry: (WindowId, Rect),
    tiled: Seq<WindowId>,
    actual: Seq<(WindowId, Rect)>,
    display: Rect,
) -> bool {
    tiled.contains(entry.0) && !off_screen(display, entry.1) && listed(actual, entry.0)
}

/// How far the window's real frame is from the intended one, by its worse axis.
pub open spec fn miss(entry: (WindowId, Rect), actual: Seq<(WindowId, Rect)>) -> int {
    let found = (lookup(actual, entry.0)->0).1;
    greater(
        distance(found.origin.x - entry.1.origin.x),
        distance(found.origin.y - entry.1.origin.y),
    )
}

/// How many of `entries` are measured and missed by more than `over`.
pub open spec fn misses_over(
    entries: Seq<(WindowId, Rect)>,
    tiled: Seq<WindowId>,
    actual: Seq<(WindowId, Rect)>,
    display: Rect,
    over: int,
) -> nat
    decreases entries.len(),
{
    if entries.len() == 0 {
        0
    } else {
        misses_over(entries.drop_last(), tiled, actual, display, over) + (if measured(
            entries.last(),
            tiled,
            actual,
            display,
        ) && miss(entries.last(), actual) > over {
            1nat
        } else {
            0nat
        })
    }
}

/// `worst` is the largest miss and `wsid` the first window with it; both are zero when nothing
/// missed.
pub open spec fn worst_miss(
    entries: Seq<(WindowId, Rect)>,
    tiled: Seq<WindowId>,
    actual: Seq<(WindowId, Rect)>,
    display: Rect,
    worst: int,
    wsid: u32,
) -> bool {
    &&& worst >= 0
    &&& forall|i: int|
        0 <= i < entries.len() && #[trigger] measured(entries[i], tiled, actual, display) ==> miss(
            entries[i],
            actual,
        ) <= worst
    &&& worst == 0 ==> wsid == 0
    &&& worst > 0 ==> exists|i: int|
        {
            &&& 0 <= i < entries.len()
            &&& #[trigger] measured(entries[i], tiled, actual, display)
            &&& miss(entries[i], actual) == worst
            &&& entries[i].0.idx == wsid
            &&& forall|j: int|
                0 <= j < i && #[trigger] measured(entries[j], tiled, actual, display) ==> miss(
                    entries[j],
                    actual,
                ) < worst
        }
}

/// Measures every tiled window's real frame against its intended one. `actual` is what the window
/// server answered, by window.
pub fn handover_report(
    final_frames: &Vec<(WindowId, Rect)>,
    tiled: &Vec<WindowId>,
    actual: &Vec<(WindowId, Rect)>,
    display: Rect,
) -> (r: HandoverReport)
    ensures
        r.total == misses_over(final_frames@, tiled@, actual@, display, -1),
        r.count_over == misses_over(final_frames@, tiled@, actual@, display, 2_000),
        worst_miss(
            final_frames@,
            tiled@,
            actual@,
            display,
            r.worst_visible_pt as int,
            r.worst_wsid,
        ),
{
    let mut report: HandoverReport = HandoverReport {
        total: 0,
        count_over: 0,
        worst_visible_pt: 0,
        worst_wsid: 0,
    };
    let mut i: usize = 0;
    while i < final_frames.len()
        invariant
            i <= final_frames.len(),
            report.total <= i,
            report.count_over <= i,
            report.total == misses_over(
                final_frames@.take(i as int),
                tiled@,
                actual@,
                display,
                -1,
            ),
            report.count_over == misses_over(
                final_frames@.take(i as int),
                tiled@,
                actual@,
                display,
                2_000,
            ),
            worst_miss(
                final_frames@.take(i as int),
                tiled@,
                actual@,
                display,
                report.worst_visible_pt as int,
                report.worst_wsid,
            ),
        decreases final_frames.len() - i,
    {
        let (window, intended): (WindowId, Rect) = final_frames[i];
        let ghost seen = final_frames@.take(i as int);
        let ghost seen_now = final_frames@.take(i + 1);
        let ghost then = report;
        assert(seen_now.drop_last() == seen);
        assert forall|j: int| 0 <= j < i implies seen_now[j] == #[trigger] seen[j] by {}
        assert(seen_now[i as int] == (window, intended));
        if contains(tiled, window) && !is_off_screen(display, intended) {
            if let Some(found) = get(actual, window) {
                report.total = report.total + 1;
                let dx: i128 = distance_between(found.1.origin.x, intended.origin.x);
                let dy: i128 = distance_between(found.1.origin.y, intended.origin.y);
                let error: i128 = if dx >= dy {
                    dx
                } else {
                    dy
                };
                if error > HANDOVER_THRESHOLD_PT as i128 {
                    report.count_over = report.count_over + 1;
                }
                if error > report.worst_visible_pt {
                    report.worst_visible_pt = error;
                    report.worst_wsid = window.idx;
                }
                assert(measured(seen_now[i as int], tiled@, actual@, display));
                assert(miss(seen_now[i as int], actual@) == error);
            }
        }
        assert(worst_miss(
            seen_now,
            tiled@,
            actual@,
            display,
            report.worst_visible_pt as int,
            report.worst_wsid,
        )) by {
            assert forall|j: int|
                0 <= j < seen_now.len() && #[trigger] measured(
                    seen_now[j],
                    tiled@,
                    actual@,
                    display,
                ) implies miss(seen_now[j], actual@) <= report.worst_visible_pt by {
                if j < i {
                    assert(measured(seen[j], tiled@, actual@, display));
                }
            }
            if report.worst_visible_pt > 0 {
                if report.worst_visible_pt > then.worst_visible_pt {
                    let k = i as int;
                    assert(measured(seen_now[k], tiled@, actual@, display));
                    assert forall|j: int|
                        0 <= j < k && #[trigger] measured(
                            seen_now[j],
                            tiled@,
                            actual@,
                            display,
                        ) implies miss(seen_now[j], actual@) < report.worst_visible_pt by {
                        assert(measured(seen[j], tiled@, actual@, display));
                    }
                } else {
                    let k = choose|k: int|
                        {
                            &&& 0 <= k < seen.len()
                            &&& #[trigger] measured(seen[k], tiled@, actual@, display)
                            &&& miss(seen[k], actual@) == then.worst_visible_pt
                            &&& seen[k].0.idx == then.worst_wsid
                            &&& forall|j: int|
                                0 <= j < k && #[trigger] measured(
                                    seen[j],
                                    tiled@,
                                    actual@,
                                    display,
                                ) ==> miss(seen[j], actual@) < then.worst_visible_pt
                        };
                    assert(measured(seen_now[k], tiled@, actual@, display));
                    assert forall|j: int|
                        0 <= j < k && #[trigger] measured(
                            seen_now[j],
                            tiled@,
                            actual@,
                            display,
                        ) implies miss(seen_now[j], actual@) < report.worst_visible_pt by {
                        assert(measured(seen[j], tiled@, actual@, display));
                    }
                }
            }
        }
        i += 1;
    }
    assert(final_frames@.take(final_frames@.len() as int) == final_frames@);
    report
}

/// How far two samples of a thumbprint may differ and still count as the same rendering.
pub const THUMBPRINT_TOLERANCE: u8 = 8;

/// The two thumbprints sample the same places and no sample differs by more than
/// [`THUMBPRINT_TOLERANCE`].
pub open spec fn renders_like(a: Seq<u8>, b: Seq<u8>) -> bool {
    a.len() == b.len() && forall|i: int|
        0 <= i < a.len() ==> distance(#[trigger] a[i] - b[i]) <= THUMBPRINT_TOLERANCE
}

/// Whether two thumbprints show the same rendering.
pub fn renderings_match(a: &[u8], b: &[u8]) -> (r: bool)
    ensures
        r == renders_like(a@, b@),
{
    if a.len() != b.len() {
        return false;
    }
    let mut i: usize = 0;
    while i < a.len()
        invariant
            i <= a.len(),
            a.len() == b.len(),
            forall|j: int|
                0 <= j < i ==> distance(#[trigger] a@[j] - b@[j]) <= THUMBPRINT_TOLERANCE,
        decreases a.len() - i,
    {
        let (x, y): (u8, u8) = (a[i], b[i]);
        let gap: u8 = if x >= y {
            x - y
        } else {
            y - x
        };
        if gap > THUMBPRINT_TOLERANCE {
            assert(distance(a@[i as int] - b@[i as int]) > THUMBPRINT_TOLERANCE);
            return false;
        }
        i += 1;
    }
    true
}

/// Two captures in a row render alike, or the capture no longer renders like the picture from
/// before the resize.
pub open spec fn settles(
    prev: Option<Seq<u8>>,
    print: Seq<u8>,
    pre_resize: Option<Seq<u8>>,
) -> bool {
    ||| (prev is Some && renders_like(prev->0, print))
    ||| (pre_resize is Some && !renders_like(pre_resize->0, print))
}

/// The contents of an optional thumbprint.
pub open spec fn print_view(print: Option<&[u8]>) -> Option<Seq<u8>> {
    match print {
        Some(bytes) => Some(bytes@),
        None => None,
    }
}

/// Whether a chase capture counts as the window's settled rendering.
pub fn chase_settled(prev: Option<&[u8]>, print: &[u8], pre_resize: Option<&[u8]>) -> (r: bool)
    ensures
        r == settles(print_view(prev), print@, print_view(pre_resize)),
{
    let repeats: bool = match prev {
        Some(previous) => renderings_match(previous, print),
        None => false,
    };
    let repainted: bool = match pre_resize {
        Some(before) => !renderings_match(before, print),
        None => false,
    };
    repeats || repainted
}

/// How long a grow may hold at frame zero for its reveal pixels: four tenths of the flight, at least
/// 300 milliseconds, capped at [`HOLD_CAP`]. The cap is that floor, so the hold is the same for every
/// flight.
pub fn reveal_hold_limit(duration: u64) -> (r: u64)
    ensures
        r == HOLD_CAP,
{
    let share: u64 = duration / 10 * 4;
    let wanted: u64 = if share > 300_000_000 {
        share
    } else {
        300_000_000
    };
    if wanted < HOLD_CAP {
        wanted
    } else {
        HOLD_CAP
    }
}

/// Time a holding flight still waits before flying the placeholder; `None` once past the deadline.
pub open spec fn wait_left(hold_deadline: Option<u64>, now: u64) -> Option<u64> {
    match hold_deadline {
        Some(deadline) => if now < deadline {
            Some(greater(deadline - now, HOLD_RECHECK as int) as u64)
        } else {
            None
        },
        None => None,
    }
}

/// Time a holding flight still waits before flying the placeholder; `None` once past the deadline.
pub fn hold_wait(hold_deadline: Option<u64>, now: u64) -> (r: Option<u64>)
    ensures
        r == wait_left(hold_deadline, now),
{
    match hold_deadline {
        Some(deadline) => if now < deadline {
            let left: u64 = deadline - now;
            if left > HOLD_RECHECK {
                Some(left)
            } else {
                Some(HOLD_RECHECK)
            }
        } else {
            None
        },
        None => None,
    }
}

/// What became of a tile offered to an animation in flight.
#[derive(Clone, Copy, PartialEq, Eq, Structural, Debug)]
pub enum Admitted {
    /// Same window, same destination: a redundant pass. Nothing restarts, so rapid presses neither
    /// restart nor extend the flight.
    Redundant,
    /// Same window, new destination: the tile bends toward it mid-flight.
    Retargeted,
    /// A window this animation had not seen yet.
    Joined,
}

/// The merge decision for one tile.
pub open spec fn merge_rule(current_to: Option<Rect>, incoming_to: Rect) -> Admitted {
    match current_to {
        Some(to) => if same_frame(to, incoming_to) {
            Admitted::Redundant
        } else {
            Admitted::Retargeted
        },
        None => Admitted::Joined,
    }
}

/// The merge decision for one tile.
pub fn merge_action(current_to: Option<Rect>, incoming_to: Rect) -> (r: Admitted)
    ensures
        r == merge_rule(current_to, incoming_to),
{
    match current_to {
        Some(to) => if to.same_as(incoming_to) {
            Admitted::Redundant
        } else {
            Admitted::Retargeted
        },
        None => Admitted::Joined,
    }
}

/// Putting `entry` in is a change: its window is new, or its frame differs.
pub open spec fn frame_changes(existing: Seq<(WindowId, Rect)>, entry: (WindowId, Rect)) -> bool {
    match lookup(existing, entry.0) {
        Some(held) => !same_frame(held.1, entry.1),
        None => true,
    }
}

/// Putting all of `incoming` in, in order, is a change at some point.
pub open spec fn frames_change(
    existing: Seq<(WindowId, Rect)>,
    incoming: Seq<(WindowId, Rect)>,
) -> bool
    decreases incoming.len(),
{
    if incoming.len() == 0 {
        false
    } else {
        frames_change(existing, incoming.drop_last()) || frame_changes(
            upserted_all(existing, incoming.drop_last()),
            incoming.last(),
        )
    }
}

/// Folds a later pass's destinations into the flight's; the latest frame per window wins. Returns
/// whether anything changed.
pub fn merge_final_frames(
    existing: &mut Vec<(WindowId, Rect)>,
    incoming: &Vec<(WindowId, Rect)>,
) -> (r: bool)
    ensures
        final(existing)@ == upserted_all(old(existing)@, incoming@),
        r == frames_change(old(existing)@, incoming@),
{
    let ghost before = existing@;
    let mut changed: bool = false;
    let mut i: usize = 0;
    while i < incoming.len()
        invariant
            i <= incoming.len(),
            existing@ == upserted_all(before, incoming@.take(i as int)),
            changed == frames_change(before, incoming@.take(i as int)),
        decreases incoming.len() - i,
    {
        assert(incoming@.take(i + 1).drop_last() == incoming@.take(i as int));
        let (window, frame): (WindowId, Rect) = incoming[i];
        match find(existing, window) {
            Some(at) => {
                if !existing[at].1.same_as(frame) {
                    changed = true;
                }
                existing.set(at, (window, frame));
            },
            None => {
                existing.push((window, frame));
                changed = true;
            },
        }
        i += 1;
    }
    assert(incoming@.take(incoming@.len() as int) == incoming@);
    changed
}

/// Where a later pass points one reserved entrance.
pub open spec fn retargeted(
    entrance: PendingEntrance,
    final_frames: Seq<(WindowId, Rect)>,
    display: Rect,
) -> PendingEntrance {
    match lookup(final_frames, entrance.window) {
        Some(entry) => if same_frame(entrance.to, in_overlay(entry.1, display)) {
            entrance
        } else {
            PendingEntrance { to: in_overlay(entry.1, display), ..entrance }
        },
        None => entrance,
    }
}

/// The later pass has another destination for the entrance.
pub open spec fn retargets(
    entrance: PendingEntrance,
    final_frames: Seq<(WindowId, Rect)>,
    display: Rect,
) -> bool {
    lookup(final_frames, entrance.window) matches Some(entry) && !same_frame(
        entrance.to,
        in_overlay(entry.1, display),
    )
}

/// How many entrances the later pass has another destination for.
pub open spec fn retarget_count(
    entrances: Seq<PendingEntrance>,
    final_frames: Seq<(WindowId, Rect)>,
    display: Rect,
) -> nat
    decreases entrances.len(),
{
    if entrances.len() == 0 {
        0
    } else {
        retarget_count(entrances.drop_last(), final_frames, display) + (if retargets(
            entrances.last(),
            final_frames,
            display,
        ) {
            1nat
        } else {
            0nat
        })
    }
}

/// Every frame of a list lies inside the limit.
pub open spec fn frames_inside(frames: Seq<(WindowId, Rect)>, k: int) -> bool {
    forall|i: int| 0 <= i < frames.len() ==> (#[trigger] frames[i]).1.inside(k)
}

/// Points a flight's reserved entrances at a later pass's destinations; an entrance has no tile for
/// a merge to retarget. Returns how many were moved.
pub fn retarget_entrances(
    entrances: &mut Vec<PendingEntrance>,
    final_frames: &Vec<(WindowId, Rect)>,
    display: Rect,
) -> (r: usize)
    requires
        frames_inside(final_frames@, 1),
        display.inside(1),
    ensures
        final(entrances)@ == old(entrances)@.map_values(
            |e: PendingEntrance| retargeted(e, final_frames@, display),
        ),
        r == retarget_count(old(entrances)@, final_frames@, display),
{
    let ghost before = entrances@;
    let mut moved: usize = 0;
    let mut i: usize = 0;
    while i < entrances.len()
        invariant
            i <= entrances.len(),
            entrances.len() == before.len(),
            moved <= i,
            frames_inside(final_frames@, 1),
            display.inside(1),
            moved == retarget_count(before.take(i as int), final_frames@, display),
            forall|j: int|
                0 <= j < i ==> #[trigger] entrances[j] == retargeted(
                    before[j],
                    final_frames@,
                    display,
                ),
            forall|j: int| i <= j < before.len() ==> #[trigger] entrances[j] == before[j],
        decreases entrances.len() - i,
    {
        assert(before.take(i + 1).drop_last() == before.take(i as int));
        let entrance: PendingEntrance = entrances[i];
        assert(entrance == before[i as int]);
        if let Some(at) = find(final_frames, entrance.window) {
            // A slot is never a park, so the frame is aimed at directly.
            let to: Rect = to_overlay_space(final_frames[at].1, display);
            if !entrance.to.same_as(to) {
                entrances.set(
                    i,
                    PendingEntrance { window: entrance.window, to, floating: entrance.floating },
                );
                moved = moved + 1;
            }
        }
        i += 1;
    }
    assert(before.take(before.len() as int) == before);
    assert(entrances@ =~= before.map_values(
        |e: PendingEntrance| retargeted(e, final_frames@, display),
    ));
    moved
}

/// The frames a coalescing merge must send again: frame-zero frames are not placed twice on their
/// own.
pub fn reapply_set(
    frames_applied: bool,
    in_flight: bool,
    changed: bool,
    final_frames: &Vec<(WindowId, Rect)>,
) -> (r: Option<Vec<(WindowId, Rect)>>)
    ensures
        r is Some <==> frames_applied && !in_flight && changed,
        r matches Some(frames) ==> frames@ == final_frames@,
{
    if frames_applied && !in_flight && changed {
        Some(copied(final_frames))
    } else {
        None
    }
}

/// How long a tile joining a flight already in motion travels: what is left of the flight.
pub fn late_join_duration(duration: u64, progress: Progress) -> (r: u64)
    ensures
        r == progress.rest_of(duration as int),
        r <= duration,
{
    progress.left_of(duration)
}

/// A newly opened window's reservation, and the hold entry it adds at its destination's size.
pub fn entrance_reservation(window: WindowId, to: Rect, floating: bool) -> (r: (
    PendingEntrance,
    Option<(WindowId, Size)>,
))
    ensures
        r.0 == (PendingEntrance { window, to, floating }),
        r.1 == Some((window, to.size)),
{
    (PendingEntrance { window, to, floating }, Some((window, to.size)))
}

/// The flight's clock once a bounce joins it: long enough for the return leg, never shorter.
/// `elapsed` is how long the flight has moved, `None` before it starts.
pub fn clock_for_bounce(elapsed: Option<u64>, duration: u64, bounce: u64) -> (r: u64)
    requires
        elapsed matches Some(gone) ==> gone + bounce <= u64::MAX,
    ensures
        r == greater(
            duration as int,
            match elapsed {
                Some(gone) => gone + bounce,
                None => bounce as int,
            },
        ),
        r >= duration,
{
    let needed: u64 = match elapsed {
        Some(gone) => gone + bounce,
        None => bounce,
    };
    if duration >= needed {
        duration
    } else {
        needed
    }
}

/// Whether the overlay lifts now: clock done and (presented and landed, or [`LIFT_GRACE`] overdue).
pub fn lift_now(clock_done: bool, settled: bool, landed: bool, overdue: bool) -> (r: bool)
    ensures
        r == (clock_done && ((settled && landed) || overdue)),
{
    clock_done && ((settled && landed) || overdue)
}

/// Why a new window is reserved a place instead of travelling from its spawn frame.
#[derive(Clone, Copy, PartialEq, Eq, Structural, Debug)]
pub enum ReserveReason {
    NoServerFrame,
    ZeroServerFrame,
    CaptureBudget,
    CaptureUnusable,
}

impl ReserveReason {
    /// The words for the log.
    pub fn label(self) -> (r: &'static str)
        ensures
            r@ == (match self {
                ReserveReason::NoServerFrame => "no server frame"@,
                ReserveReason::ZeroServerFrame => "zero server frame"@,
                ReserveReason::CaptureBudget => "capture budget"@,
                ReserveReason::CaptureUnusable => "capture unusable"@,
            }),
    {
        match self {
            ReserveReason::NoServerFrame => "no server frame",
            ReserveReason::ZeroServerFrame => "zero server frame",
            ReserveReason::CaptureBudget => "capture budget",
            ReserveReason::CaptureUnusable => "capture unusable",
        }
    }
}

/// How a newly opened window enters a flight.
#[derive(Clone, Copy, PartialEq, Eq, Structural, Debug)]
pub enum EntranceDecision {
    /// Its tile travels from the frame the system showed it at to its slot.
    Travel { from: Rect, to: Rect },
    /// No usable picture at spawn: a reservation held for the first picture.
    Reserve(ReserveReason),
}

/// `Travel` exactly when the server reports a sized frame, budget remains and the spawn capture is
/// usable; otherwise the first of these that fails is the reason.
pub open spec fn entrance_rule(
    spawn: Option<Rect>,
    slot: Rect,
    picture_usable: bool,
    budget_left: bool,
) -> EntranceDecision {
    if spawn is None {
        EntranceDecision::Reserve(ReserveReason::NoServerFrame)
    } else if spawn->0.size.width <= 0 || spawn->0.size.height <= 0 {
        EntranceDecision::Reserve(ReserveReason::ZeroServerFrame)
    } else if !budget_left {
        EntranceDecision::Reserve(ReserveReason::CaptureBudget)
    } else if !picture_usable {
        EntranceDecision::Reserve(ReserveReason::CaptureUnusable)
    } else {
        EntranceDecision::Travel { from: spawn->0, to: slot }
    }
}

/// How a newly opened window enters: from its spawn frame where it can.
pub fn entrance_plan(
    spawn: Option<Rect>,
    slot: Rect,
    picture_usable: bool,
    budget_left: bool,
) -> (r: EntranceDecision)
    ensures
        r == entrance_rule(spawn, slot, picture_usable, budget_left),
{
    match spawn {
        None => EntranceDecision::Reserve(ReserveReason::NoServerFrame),
        Some(from) => if from.size.width <= 0 || from.size.height <= 0 {
            EntranceDecision::Reserve(ReserveReason::ZeroServerFrame)
        } else if !budget_left {
            EntranceDecision::Reserve(ReserveReason::CaptureBudget)
        } else if !picture_usable {
            EntranceDecision::Reserve(ReserveReason::CaptureUnusable)
        } else {
            EntranceDecision::Travel { from, to: slot }
        },
    }
}

/// What a fresh flight does at frame zero: whether it holds, which windows the chase follows, and
/// which frames go out now (all when holding, else the newcomers' slots so the chase can capture).
pub fn frame_zero_work(
    awaiting: &Vec<(WindowId, Size)>,
    chase: &Vec<(WindowId, Size)>,
    final_frames: &Vec<(WindowId, Rect)>,
    entrance_frames: &Vec<(WindowId, Rect)>,
) -> (r: (bool, Vec<(WindowId, Size)>, Vec<(WindowId, Rect)>))
    ensures
        r.0 == (awaiting@.len() > 0),
        r.1@ == added_all(awaiting@, chase@),
        r.2@ == (if awaiting@.len() > 0 {
            final_frames@
        } else {
            entrance_frames@
        }),
{
    let holding: bool = awaiting.len() > 0;
    let mut chase_set: Vec<(WindowId, Size)> = copied(awaiting);
    add_all(&mut chase_set, chase);
    let now_frames: Vec<(WindowId, Rect)> = if holding {
        copied(final_frames)
    } else {
        copied(entrance_frames)
    };
    (holding, chase_set, now_frames)
}

/// What a settled picture did for a flight holding at frame zero.
#[derive(Clone, Copy, PartialEq, Eq, Structural, Debug)]
pub enum Claimed {
    /// Taken; other holds remain.
    Held,
    /// Taken, and it was the last hold: the flight may start moving.
    Released,
    /// Taken by a composed tile standing at frame zero; no hold was involved.
    Refreshed,
}

/// Whether a composed pass is worth an overlay flight.
pub fn worth_flying(moving_drawable: bool, running: bool) -> (r: bool)
    ensures
        r == (moving_drawable || running),
{
    moving_drawable || running
}

/// `id` is in the pass, or numbers a window of a real process among `cached` or `owed`.
pub open spec fn managed(
    pass: Seq<u32>,
    cached: Seq<WindowId>,
    owed: Seq<WindowId>,
    id: u32,
) -> bool {
    ||| pass.contains(id)
    ||| exists|i: int| 0 <= i < cached.len() && (#[trigger] cached[i]).pid != 0 && cached[i].idx == id
    ||| exists|i: int| 0 <= i < owed.len() && (#[trigger] owed[i]).pid != 0 && owed[i].idx == id
}

fn add_managed(ids: &mut Vec<u32>, windows: &Vec<WindowId>)
    ensures
        forall|id: u32| #[trigger]
            final(ids)@.contains(id) <==> old(ids)@.contains(id) || exists|i: int|
                0 <= i < windows.len() && (#[trigger] windows[i]).pid != 0 && windows[i].idx == id,
{
    let ghost before = ids@;
    let mut i: usize = 0;
    while i < windows.len()
        invariant
            i <= windows.len(),
            forall|id: u32| #[trigger]
                ids@.contains(id) <==> before.contains(id) || exists|j: int|
                    0 <= j < i && (#[trigger] windows[j]).pid != 0 && windows[j].idx == id,
        decreases windows.len() - i,
    {
        let window: WindowId = windows[i];
        let ghost then = ids@;
        if window.pid != 0 {
            ids.push(window.idx);
            proof {
                assert forall|id: u32| #[trigger] ids@.contains(id) <==> then.contains(id) || id
                    == window.idx by {
                    if then.contains(id) {
                        let k = choose|k: int| 0 <= k < then.len() && then[k] == id;
                        assert(ids@[k] == id);
                    }
                    assert(ids@[then.len() as int] == window.idx);
                }
            }
        }
        i += 1;
        assert forall|id: u32| #[trigger] ids@.contains(id) <==> before.contains(id) || exists|j: int|
            0 <= j < i && (#[trigger] windows[j]).pid != 0 && windows[j].idx == id by {
            assert(windows[i - 1] == window);
        }
    }
}

/// The window server numbers a border companion may never be: everything that is managed. Synthetic
/// identifiers carry process zero and are left out, or a border seen once could never match again.
pub fn managed_server_ids(pass: &Vec<u32>, cached: &Vec<WindowId>, owed: &Vec<WindowId>) -> (r: Vec<
    u32,
>)
    ensures
        forall|id: u32| #[trigger] r@.contains(id) <==> managed(pass@, cached@, owed@, id),
{
    let mut ids: Vec<u32> = copied(pass);
    add_managed(&mut ids, cached);
    add_managed(&mut ids, owed);
    ids
}

/// Every window named once in a pass ends with the pass's frame, whatever the flight had for it; a
/// window the pass does not name keeps its frame.
pub proof fn the_latest_frame_wins(
    existing: Seq<(WindowId, Rect)>,
    incoming: Seq<(WindowId, Rect)>,
    at: int,
)
    requires
        crate::keyed::one_each(existing),
        crate::keyed::one_each(incoming),
        0 <= at < incoming.len(),
    ensures
        lookup(upserted_all(existing, incoming), incoming[at].0) == Some(incoming[at]),
        crate::keyed::one_each(upserted_all(existing, incoming)),
{
    assert forall|j: int| at < j < incoming.len() implies #[trigger] incoming[j].key()
        != incoming[at].key() by {}
    crate::keyed::the_latest_item_wins(existing, incoming, at);
    crate::keyed::upserting_all_keeps_one_each(existing, incoming);
}

/// The windows refreshed are the tiled ends of a focus change and no others: the window that has the
/// focus now, then the one that had it. Without a change there is nothing to refresh.
pub proof fn a_focus_change_refreshes_its_two_ends(
    previous: Option<WindowId>,
    current: Option<WindowId>,
    tiles: Seq<WindowId>,
    window: WindowId,
)
    ensures
        ({
            let ends = focus_ends(previous, current, tiles);
            &&& ends.contains(window) <==> current is Some && previous != current && (current
                == Some(window) || previous == Some(window)) && tiles.contains(window)
            &&& ends.len() <= 2
            &&& ends.no_duplicates()
            &&& ends.len() == 2 ==> Some(ends[0]) == current && Some(ends[1]) == previous
            &&& current == previous ==> ends.len() == 0
        }),
{
    let ends = focus_ends(previous, current, tiles);
    if current is Some && previous != current {
        if tiles.contains(current->0) {
            assert(ends[0] == current->0);
            if previous is Some && tiles.contains(previous->0) {
                assert(ends[1] == previous->0);
            }
        } else if previous is Some && tiles.contains(previous->0) {
            assert(ends[0] == previous->0);
        }
    }
}

/// A refresh asks for a wanted window by its own tile's number and size, in the order wanted, and for
/// every wanted window that has a tile.
pub proof fn a_refresh_asks_for_the_tiles_wanted(
    tiles: Seq<(WindowId, WindowServerId, Size)>,
    wanted: Seq<WindowId>,
    more: Seq<WindowId>,
    k: int,
    i: int,
)
    ensures
        requests_for(tiles, wanted + more) == requests_for(tiles, wanted) + requests_for(
            tiles,
            more,
        ),
        0 <= k < requests_for(tiles, wanted).len() ==> wanted.contains(
            requests_for(tiles, wanted)[k].window,
        ) && exists|t: int|
            {
                &&& 0 <= t < tiles.len()
                &&& (#[trigger] tiles[t]).0 == requests_for(tiles, wanted)[k].window
                &&& tiles[t].1 == requests_for(tiles, wanted)[k].server_id
                &&& tiles[t].2 == requests_for(tiles, wanted)[k].size
            },
        0 <= i < wanted.len() && listed(tiles, wanted[i]) ==> exists|j: int|
            0 <= j < requests_for(tiles, wanted).len() && (#[trigger] requests_for(
                tiles,
                wanted,
            )[j]).window == wanted[i],
    decreases wanted.len() + more.len(),
{
    if more.len() == 0 {
        assert(wanted + more =~= wanted);
        assert(requests_for(tiles, wanted) + requests_for(tiles, more) =~= requests_for(
            tiles,
            wanted,
        ));
    } else {
        a_refresh_asks_for_the_tiles_wanted(tiles, wanted, more.drop_last(), k, i);
        assert((wanted + more).drop_last() =~= wanted + more.drop_last());
        assert((wanted + more).last() == more.last());
        assert(requests_for(tiles, wanted + more) =~= requests_for(tiles, wanted) + requests_for(
            tiles,
            more,
        ));
    }
    if wanted.len() > 0 {
        let rest = wanted.drop_last();
        let last = wanted.last();
        a_refresh_asks_for_the_tiles_wanted(tiles, rest, Seq::empty(), k, i);
        let before = requests_for(tiles, rest);
        let all = requests_for(tiles, wanted);
        crate::keyed::first_at_finds(tiles, last);
        if 0 <= k < before.len() {
            assert(all[k] == before[k]);
            let w = choose|w: int| 0 <= w < rest.len() && rest[w] == before[k].window;
            assert(wanted[w] == before[k].window);
        } else if 0 <= k < all.len() {
            let t = crate::keyed::first_at(tiles, last);
            assert(tiles[t].0 == all[k].window);
            assert(wanted[wanted.len() - 1] == last);
        }
        if 0 <= i < rest.len() && listed(tiles, wanted[i]) {
            assert(rest[i] == wanted[i]);
            let j = choose|j: int|
                0 <= j < before.len() && (#[trigger] before[j]).window == rest[i];
            assert(all[j] == before[j]);
        } else if i == rest.len() && listed(tiles, wanted[i]) {
            assert(all[before.len() as int].window == wanted[i]);
        }
    }
}

/// A border is told by how far its edges stand out from the window's: `left`, `top`, `right` and
/// `bottom` thousandths of a point. On each axis it is at most a point smaller and eight points
/// larger in all, and its two sides differ by at most eight points. A frame traces itself.
pub proof fn a_border_stands_out_little(
    frame: Rect,
    candidate: Rect,
    left: int,
    top: int,
    right: int,
    bottom: int,
)
    requires
        candidate.origin.x == frame.origin.x - left,
        candidate.origin.y == frame.origin.y - top,
        candidate.origin.x + candidate.size.width == frame.origin.x + frame.size.width + right,
        candidate.origin.y + candidate.size.height == frame.origin.y + frame.size.height + bottom,
    ensures
        traces(frame, candidate) <==> {
            &&& -1_000 <= left + right <= 8_000
            &&& -1_000 <= top + bottom <= 8_000
            &&& -8_000 <= right - left <= 8_000
            &&& -8_000 <= bottom - top <= 8_000
        },
        traces(frame, frame),
{
}

/// A window's border is the first of the candidates on screen that trace it, and only a window on
/// screen has one.
pub proof fn a_border_is_a_candidate_that_traces(
    frame: Rect,
    candidates: Seq<(WindowServerId, Rect)>,
    display: Rect,
)
    ensures
        off_screen(display, frame) ==> companion(frame, candidates, display) is None,
        companion(frame, candidates, display) matches Some(found) ==> exists|i: int|
            {
                &&& 0 <= i < candidates.len()
                &&& #[trigger] candidates[i] == found
                &&& traces(frame, found.1)
                &&& !off_screen(display, found.1)
                &&& forall|j: int|
                    0 <= j < i && !off_screen(display, (#[trigger] candidates[j]).1) ==> !traces(
                        frame,
                        candidates[j].1,
                    )
            },
{
    if companion(frame, candidates, display) is Some {
        let i = choose|i: int| first_tracer(frame, candidates, display, i);
        assert(candidates[i] == companion(frame, candidates, display)->0);
    }
}

/// An entering window grows in from its own left edge: nothing across, all of its height, in place.
pub proof fn an_entrance_grows_from_its_left_edge(to: Rect)
    ensures
        grown_from(to).origin.x == to.origin.x,
        grown_from(to).origin.y == to.origin.y,
        grown_from(to).size.width == 0,
        grown_from(to).size.height == to.size.height,
{
}

/// A strip movement places its windows at once, a layout pass late in its flight; a resize takes
/// longer, and is placed halfway whatever it rides on.
pub proof fn a_resize_is_placed_before_a_move(moved: u8, resized: u8, panned: u8, panned_resized: u8)
    requires
        call_ensures(apply_frames_at, (FlightKind::Layout, false), moved),
        call_ensures(apply_frames_at, (FlightKind::Layout, true), resized),
        call_ensures(apply_frames_at, (FlightKind::Pan, false), panned),
        call_ensures(apply_frames_at, (FlightKind::Pan, true), panned_resized),
    ensures
        panned == 0,
        panned < resized < moved < 100,
        4 * moved == 3 * 100,
        2 * resized == 100,
        panned_resized == resized,
{
}

/// When a picture is taken at frame zero, admitted late, cut onto a moving tile, or only kept: each
/// exactly on these terms.
pub proof fn a_landed_picture_is_used_on_these_terms(
    state: TileState,
    settled: bool,
    same: bool,
    same_source: bool,
    progress: Option<Progress>,
)
    ensures
        ({
            let decision = swap_rule(state, settled, same, same_source, progress);
            let in_time = progress is Some && progress->0.total > 0 && 100 * progress->0.elapsed
                < 60 * progress->0.total;
            &&& decision == SwapDecision::Claim <==> progress is None && (state is Awaiting
                || state is Reveal)
            &&& decision == SwapDecision::Admit <==> progress is Some && state is Awaiting
            &&& decision == SwapDecision::Swap(SwapReason::Reveal) <==> state == (
                TileState::Reveal { fits: true }) && settled && in_time
            &&& decision == SwapDecision::Swap(SwapReason::Refresh) <==> (state == (
                TileState::MovingRefreshTarget { fits: true, resizing: false }) || (state == (
                TileState::MovingRefreshTarget { fits: true, resizing: true }) && settled))
                && same_source && !same && in_time
        }),
{
}

/// Without a flight any capture may start. At frame zero only a chase and a missing picture may, at a
/// hold only a chase, and in motion only a chase and the destination's refresh.
pub proof fn a_flight_lets_little_capture_work_start(kind: CaptureKind)
    ensures
        allows(FlightPhase::Idle, kind),
        allows(FlightPhase::FrameZero, kind) <==> kind == CaptureKind::Chase || kind
            == CaptureKind::NeedsCapture,
        allows(FlightPhase::Holding, kind) <==> kind == CaptureKind::Chase,
        allows(FlightPhase::Moving, kind) <==> kind == CaptureKind::Chase || kind
            == CaptureKind::Refresh,
{
}

/// A window is harvested when it was animated and was not harvested before, is not being captured and
/// is not dressed.
pub proof fn a_harvest_is_of_bare_windows(
    animated: Seq<WindowId>,
    harvested: Seq<WindowId>,
    requested: Seq<WindowId>,
    dressed: Seq<WindowId>,
    window: WindowId,
)
    ensures
        harvest_set(animated, harvested, requested, dressed).contains(window) <==> {
            &&& animated.contains(window)
            &&& !harvested.contains(window)
            &&& !requested.contains(window)
            &&& !dressed.contains(window)
        },
{
    each_window_is_harvested_at_most_once(animated, harvested, requested, dressed);
}

/// A desktop render is asked for when there is none, when it is over two seconds old, or when it is
/// not of the display's size; a fresh one of the right size is kept.
pub proof fn a_fresh_render_of_the_display_is_kept(age: u64, covered: Extent, display: (i64, i64))
    ensures
        render_wanted(None, display),
        age > 2_000_000_000 ==> render_wanted(Some((age, covered)), display),
        !spans(covered, display) ==> render_wanted(Some((age, covered)), display),
        age <= 2_000_000_000 && spans(covered, display) ==> !render_wanted(
            Some((age, covered)),
            display,
        ),
{
}

/// Only a window that is tiled, meant to be on screen and answered for is measured, and its miss is
/// the larger of how far its corner is off across and down.
pub proof fn a_miss_is_how_far_the_corner_is_off(
    entry: (WindowId, Rect),
    tiled: Seq<WindowId>,
    actual: Seq<(WindowId, Rect)>,
    display: Rect,
    found: Rect,
)
    requires
        lookup(actual, entry.0) == Some((entry.0, found)),
    ensures
        measured(entry, tiled, actual, display) <==> tiled.contains(entry.0) && !off_screen(
            display,
            entry.1,
        ),
        miss(entry, actual) >= found.origin.x - entry.1.origin.x,
        miss(entry, actual) >= entry.1.origin.x - found.origin.x,
        miss(entry, actual) >= found.origin.y - entry.1.origin.y,
        miss(entry, actual) >= entry.1.origin.y - found.origin.y,
        miss(entry, actual) == found.origin.x - entry.1.origin.x || miss(entry, actual)
            == entry.1.origin.x - found.origin.x || miss(entry, actual) == found.origin.y
            - entry.1.origin.y || miss(entry, actual) == entry.1.origin.y - found.origin.y,
{
}

/// Windows are counted one by one: no window counts twice, one that is not measured does not count,
/// and the misses over a bound are among those over every smaller one.
pub proof fn misses_are_counted_one_by_one(
    entries: Seq<(WindowId, Rect)>,
    more: Seq<(WindowId, Rect)>,
    tiled: Seq<WindowId>,
    actual: Seq<(WindowId, Rect)>,
    display: Rect,
    over: int,
    less: int,
)
    requires
        less <= over,
    ensures
        misses_over(entries + more, tiled, actual, display, over) == misses_over(
            entries,
            tiled,
            actual,
            display,
            over,
        ) + misses_over(more, tiled, actual, display, over),
        misses_over(entries, tiled, actual, display, over) <= misses_over(
            entries,
            tiled,
            actual,
            display,
            less,
        ) <= entries.len(),
        misses_over(entries, tiled, actual, display, over) == 0 <==> forall|i: int|
            0 <= i < entries.len() && measured(#[trigger] entries[i], tiled, actual, display)
                ==> miss(entries[i], actual) <= over,
        misses_over(entries, tiled, actual, display, over) == entries.len() <==> forall|i: int|
            0 <= i < entries.len() ==> measured(#[trigger] entries[i], tiled, actual, display)
                && miss(entries[i], actual) > over,
    decreases entries.len() + more.len(),
{
    if more.len() == 0 {
        assert(entries + more =~= entries);
    } else {
        misses_are_counted_one_by_one(
            entries,
            more.drop_last(),
            tiled,
            actual,
            display,
            over,
            less,
        );
        assert((entries + more).drop_last() =~= entries + more.drop_last());
        assert((entries + more).last() == more.last());
    }
    if entries.len() > 0 {
        let rest = entries.drop_last();
        misses_are_counted_one_by_one(rest, Seq::empty(), tiled, actual, display, over, less);
        assert forall|i: int| 0 <= i < rest.len() implies #[trigger] rest[i] == entries[i] by {}
        let last = entries[entries.len() - 1];
        assert(entries.last() == last);
        let none = forall|i: int|
            0 <= i < entries.len() && measured(#[trigger] entries[i], tiled, actual, display)
                ==> miss(entries[i], actual) <= over;
        let none_before = forall|i: int|
            0 <= i < rest.len() && measured(#[trigger] rest[i], tiled, actual, display) ==> miss(
                rest[i],
                actual,
            ) <= over;
        assert(none <==> none_before && (measured(last, tiled, actual, display) ==> miss(
            last,
            actual,
        ) <= over)) by {
            if none {
                assert forall|i: int| 0 <= i < rest.len() && measured(#[trigger] rest[i], tiled, actual, display)
                    implies miss(rest[i], actual) <= over by {
                    assert(entries[i] == rest[i]);
                }
            }
            if none_before && (measured(last, tiled, actual, display) ==> miss(last, actual)
                <= over) {
                assert forall|i: int| 0 <= i < entries.len() && measured(#[trigger] entries[i], tiled, actual, display)
                    implies miss(entries[i], actual) <= over by {
                    if i < rest.len() {
                        assert(entries[i] == rest[i]);
                    }
                }
            }
        }
        let all = forall|i: int|
            0 <= i < entries.len() ==> measured(#[trigger] entries[i], tiled, actual, display)
                && miss(entries[i], actual) > over;
        let all_before = forall|i: int|
            0 <= i < rest.len() ==> measured(#[trigger] rest[i], tiled, actual, display) && miss(
                rest[i],
                actual,
            ) > over;
        assert(all <==> all_before && measured(last, tiled, actual, display) && miss(last, actual)
            > over) by {
            if all {
                assert forall|i: int| 0 <= i < rest.len() implies measured(
                    #[trigger] rest[i],
                    tiled,
                    actual,
                    display,
                ) && miss(rest[i], actual) > over by {
                    assert(entries[i] == rest[i]);
                }
            }
            if all_before && measured(last, tiled, actual, display) && miss(last, actual) > over {
                assert forall|i: int| 0 <= i < entries.len() implies measured(
                    #[trigger] entries[i],
                    tiled,
                    actual,
                    display,
                ) && miss(entries[i], actual) > over by {
                    if i < rest.len() {
                        assert(entries[i] == rest[i]);
                    }
                }
            }
        }
    }
}

/// A handover report counts every window measured, and apart from those the ones more than two points
/// off; the worst is one of them.
pub proof fn a_report_counts_what_was_off(
    final_frames: Vec<(WindowId, Rect)>,
    tiled: Vec<WindowId>,
    actual: Vec<(WindowId, Rect)>,
    display: Rect,
    report: HandoverReport,
    i: int,
)
    requires
        call_ensures(handover_report, (&final_frames, &tiled, &actual, display), report),
        0 <= i < final_frames@.len(),
    ensures
        report.count_over <= report.total <= final_frames@.len(),
        measured(final_frames@[i], tiled@, actual@, display) ==> report.total > 0
            && report.worst_visible_pt >= miss(final_frames@[i], actual@),
        measured(final_frames@[i], tiled@, actual@, display) && miss(final_frames@[i], actual@)
            > 2_000 ==> report.count_over > 0,
        report.count_over > 0 ==> report.worst_visible_pt > 2_000,
        report.worst_visible_pt > 0 ==> exists|j: int|
            {
                &&& 0 <= j < final_frames@.len()
                &&& measured(#[trigger] final_frames@[j], tiled@, actual@, display)
                &&& miss(final_frames@[j], actual@) == report.worst_visible_pt
                &&& final_frames@[j].0.idx == report.worst_wsid
            },
{
    let none = Seq::<(WindowId, Rect)>::empty();
    misses_are_counted_one_by_one(final_frames@, none, tiled@, actual@, display, 2_000, -1);
    misses_are_counted_one_by_one(final_frames@, none, tiled@, actual@, display, -1, -1);
    assert(measured(final_frames@[i], tiled@, actual@, display) ==> miss(final_frames@[i], actual@)
        > -1);
}

/// Two thumbprints render alike when no sample of one is more than eight from the other's in its
/// place; a print renders like itself, and it does not matter which is asked.
pub proof fn likeness_is_sample_by_sample(a: Seq<u8>, b: Seq<u8>)
    ensures
        renders_like(a, a),
        renders_like(a, b) == renders_like(b, a),
        renders_like(a, b) ==> a.len() == b.len(),
        a.len() == b.len() ==> (renders_like(a, b) <==> forall|i: int|
            0 <= i < a.len() ==> -8 <= #[trigger] a[i] - b[i] <= 8),
{
    if renders_like(a, b) {
        assert forall|i: int| 0 <= i < b.len() implies distance(#[trigger] b[i] - a[i])
            <= THUMBPRINT_TOLERANCE by {
            assert(distance(a[i] - b[i]) <= THUMBPRINT_TOLERANCE);
        }
        assert forall|i: int| 0 <= i < a.len() implies -8 <= #[trigger] a[i] - b[i] <= 8 by {
            assert(distance(a[i] - b[i]) <= THUMBPRINT_TOLERANCE);
        }
    }
    if renders_like(b, a) {
        assert forall|i: int| 0 <= i < a.len() implies distance(#[trigger] a[i] - b[i])
            <= THUMBPRINT_TOLERANCE by {
            assert(distance(b[i] - a[i]) <= THUMBPRINT_TOLERANCE);
        }
    }
    if a.len() == b.len() && forall|i: int| 0 <= i < a.len() ==> -8 <= #[trigger] a[i] - b[i] <= 8 {
        assert forall|i: int| 0 <= i < a.len() implies distance(#[trigger] a[i] - b[i])
            <= THUMBPRINT_TOLERANCE by {
            assert(-8 <= a[i] - b[i] <= 8);
        }
    }
}

/// A rendering is settled once it repeats or is no longer the one from before the resize; a first
/// capture with nothing to compare it with is not.
pub proof fn a_rendering_settles_by_repeating_or_changing(
    prev: Option<Seq<u8>>,
    print: Seq<u8>,
    pre_resize: Option<Seq<u8>>,
)
    ensures
        !settles(None, print, None),
        settles(Some(print), print, pre_resize),
        prev is None && pre_resize == Some(print) ==> !settles(prev, print, pre_resize),
        prev matches Some(before) ==> renders_like(before, print) ==> settles(
            prev,
            print,
            pre_resize,
        ),
        pre_resize matches Some(before) ==> !renders_like(before, print) ==> settles(
            prev,
            print,
            pre_resize,
        ),
        (prev matches Some(before) ==> !renders_like(before, print)) && (pre_resize matches Some(
            before,
        ) ==> renders_like(before, print)) ==> !settles(prev, print, pre_resize),
{
    likeness_is_sample_by_sample(print, print);
}

/// A hold waits up to its deadline and no further, never looks again in less than ten milliseconds,
/// and is over without a deadline or past it.
pub proof fn a_hold_waits_for_its_deadline(deadline: u64, now: u64, duration: u64, limit: u64)
    requires
        call_ensures(reveal_hold_limit, (duration,), limit),
    ensures
        wait_left(None, now) is None,
        wait_left(Some(deadline), now) is None <==> now >= deadline,
        now + 10_000_000 <= deadline ==> wait_left(Some(deadline), now) == Some(
            (deadline - now) as u64,
        ),
        now < deadline < now + 10_000_000 ==> wait_left(Some(deadline), now) == Some(10_000_000u64),
        limit == 300_000_000,
{
}

/// A tile for a window that is flying changes something only where its destination is another; a
/// window not flying joins.
pub proof fn a_redundant_pass_restarts_nothing(current: Rect, incoming: Rect)
    ensures
        merge_rule(None, incoming) == Admitted::Joined,
        merge_rule(Some(current), current) == Admitted::Redundant,
        merge_rule(Some(current), incoming) == Admitted::Redundant <==> same_frame(
            current,
            incoming,
        ),
        merge_rule(Some(current), incoming) == Admitted::Retargeted <==> !same_frame(
            current,
            incoming,
        ),
{
}

/// Merging frames is a change exactly where some window is new or gets another frame, for a pass that
/// names each window once.
pub proof fn merging_frames_changes_what_differs(
    existing: Seq<(WindowId, Rect)>,
    incoming: Seq<(WindowId, Rect)>,
)
    requires
        crate::keyed::one_each(existing),
        crate::keyed::one_each(incoming),
    ensures
        frames_change(existing, incoming) <==> exists|i: int|
            0 <= i < incoming.len() && match lookup(existing, (#[trigger] incoming[i]).0) {
                Some(held) => !same_frame(held.1, incoming[i].1),
                None => true,
            },
    decreases incoming.len(),
{
    if incoming.len() > 0 {
        let rest = incoming.drop_last();
        let last = incoming.last();
        assert forall|i: int, j: int| 0 <= i < j < rest.len() implies #[trigger] rest[i].key()
            != #[trigger] rest[j].key() by {
            assert(incoming[i].key() != incoming[j].key());
        }
        merging_frames_changes_what_differs(existing, rest);
        assert(!listed(rest, last.0)) by {
            if listed(rest, last.0) {
                let i = choose|i: int| 0 <= i < rest.len() && #[trigger] rest[i].key() == last.0;
                assert(incoming[i].key() != incoming[incoming.len() - 1].key());
            }
        }
        crate::keyed::upserting_all_lists_both(existing, rest, last.0);
        assert(lookup(upserted_all(existing, rest), last.0) == lookup(existing, last.0));
        if frames_change(existing, rest) {
            let i = choose|i: int|
                0 <= i < rest.len() && match lookup(existing, (#[trigger] rest[i]).0) {
                    Some(held) => !same_frame(held.1, rest[i].1),
                    None => true,
                };
            assert(incoming[i] == rest[i]);
        }
        if frame_changes(existing, last) {
            assert(incoming[incoming.len() - 1] == last);
        }
        if exists|i: int|
            0 <= i < incoming.len() && match lookup(existing, (#[trigger] incoming[i]).0) {
                Some(held) => !same_frame(held.1, incoming[i].1),
                None => true,
            } {
            let i = choose|i: int|
                0 <= i < incoming.len() && match lookup(existing, (#[trigger] incoming[i]).0) {
                    Some(held) => !same_frame(held.1, incoming[i].1),
                    None => true,
                };
            if i < rest.len() {
                assert(rest[i] == incoming[i]);
            }
        }
    }
}

/// A reserved entrance follows the pass's frame for its window: it stands there on the display, up to
/// a tenth of a point, and stays as it was where the pass has none.
pub proof fn an_entrance_follows_its_window(
    entrance: PendingEntrance,
    final_frames: Seq<(WindowId, Rect)>,
    display: Rect,
)
    requires
        frames_inside(final_frames, 1),
        display.inside(1),
    ensures
        ({
            let after = retargeted(entrance, final_frames, display);
            &&& after.window == entrance.window && after.floating == entrance.floating
            &&& !listed(final_frames, entrance.window) ==> after == entrance && !retargets(
                entrance,
                final_frames,
                display,
            )
            &&& retargets(entrance, final_frames, display) <==> after.to != entrance.to
            &&& lookup(final_frames, entrance.window) matches Some(entry) ==> {
                &&& -100 < after.to.origin.x + display.origin.x - entry.1.origin.x < 100
                &&& -100 < after.to.origin.y + display.origin.y - entry.1.origin.y < 100
                &&& -100 < after.to.size.width - entry.1.size.width < 100
                &&& -100 < after.to.size.height - entry.1.size.height < 100
            }
        }),
{
    crate::keyed::first_at_finds(final_frames, entrance.window);
    if listed(final_frames, entrance.window) {
        let at = crate::keyed::first_at(final_frames, entrance.window);
        assert(final_frames[at].1.inside(1));
    }
}

/// The entrances moved are counted one by one.
pub proof fn moved_entrances_are_counted(
    entrances: Seq<PendingEntrance>,
    final_frames: Seq<(WindowId, Rect)>,
    display: Rect,
    i: int,
)
    ensures
        retarget_count(entrances, final_frames, display) <= entrances.len(),
        0 <= i < entrances.len() && retargets(entrances[i], final_frames, display)
            ==> retarget_count(entrances, final_frames, display) > 0,
        (forall|j: int|
            0 <= j < entrances.len() ==> !retargets(#[trigger] entrances[j], final_frames, display))
            ==> retarget_count(entrances, final_frames, display) == 0,
    decreases entrances.len(),
{
    if entrances.len() > 0 {
        let rest = entrances.drop_last();
        moved_entrances_are_counted(rest, final_frames, display, i);
        if 0 <= i < rest.len() {
            assert(rest[i] == entrances[i]);
        }
        if forall|j: int|
            0 <= j < entrances.len() ==> !retargets(#[trigger] entrances[j], final_frames, display) {
            assert forall|j: int| 0 <= j < rest.len() implies !retargets(
                #[trigger] rest[j],
                final_frames,
                display,
            ) by {
                assert(rest[j] == entrances[j]);
            }
            assert(!retargets(entrances[entrances.len() - 1], final_frames, display));
        }
    }
}

/// Frames are sent again only when they were out, the flight stands and something changed, and then
/// all of them.
pub proof fn frames_are_sent_again_at_a_standstill(
    frames_applied: bool,
    in_flight: bool,
    changed: bool,
    final_frames: Vec<(WindowId, Rect)>,
    again: Option<Vec<(WindowId, Rect)>>,
    stale: bool,
)
    requires
        call_ensures(reapply_set, (frames_applied, in_flight, changed, &final_frames), again),
        call_ensures(mark_stale_on_untiled_change, (changed, frames_applied), stale),
    ensures
        !frames_applied || in_flight || !changed ==> again is None,
        frames_applied && !in_flight && changed ==> again is Some && again->0@ == final_frames@,
        !stale <==> !changed && !frames_applied,
{
}

/// A flight's clock never runs out under a bounce: it leaves the bounce its whole length from now,
/// and is never cut short for one.
pub proof fn a_bounce_has_its_time(
    elapsed: u64,
    duration: u64,
    bounce: u64,
    started: u64,
    standing: u64,
)
    requires
        elapsed + bounce <= u64::MAX,
        call_ensures(clock_for_bounce, (Some(elapsed), duration, bounce), started),
        call_ensures(clock_for_bounce, (None::<u64>, duration, bounce), standing),
    ensures
        started >= duration && started - elapsed >= bounce,
        started == duration || started == elapsed + bounce,
        standing >= duration && standing >= bounce,
        standing == duration || standing == bounce,
{
}

/// The overlay never lifts before its clock is done; after that it lifts as soon as the picture is
/// presented and the windows have landed, and otherwise when it is overdue.
pub proof fn the_overlay_lifts_over_landed_windows(
    clock_done: bool,
    settled: bool,
    landed: bool,
    overdue: bool,
    lifts: bool,
)
    requires
        call_ensures(lift_now, (clock_done, settled, landed, overdue), lifts),
    ensures
        !clock_done ==> !lifts,
        clock_done && overdue ==> lifts,
        clock_done && settled && landed ==> lifts,
        !overdue && (!settled || !landed) ==> !lifts,
{
}

/// A new window travels from the frame it was shown at to its slot when that frame is known and has
/// an extent, there is budget and the capture is usable; otherwise the reason is the first of these
/// that is wanting.
pub proof fn a_new_window_travels_when_it_can(
    spawn: Option<Rect>,
    slot: Rect,
    usable: bool,
    budget_left: bool,
)
    ensures
        ({
            let decision = entrance_rule(spawn, slot, usable, budget_left);
            let sized = spawn is Some && spawn->0.size.width > 0 && spawn->0.size.height > 0;
            &&& decision is Travel <==> sized && budget_left && usable
            &&& decision matches EntranceDecision::Travel { from, to } ==> spawn == Some(from) && to
                == slot
            &&& decision == EntranceDecision::Reserve(ReserveReason::NoServerFrame) <==> spawn is None
            &&& decision == EntranceDecision::Reserve(ReserveReason::ZeroServerFrame) <==> spawn is Some
                && !sized
            &&& decision == EntranceDecision::Reserve(ReserveReason::CaptureBudget) <==> sized
                && !budget_left
            &&& decision == EntranceDecision::Reserve(ReserveReason::CaptureUnusable) <==> sized
                && budget_left && !usable
        }),
{
}

/// A reservation is for the window, where it goes and at the size it has there.
pub proof fn a_reservation_is_at_the_destination(
    window: WindowId,
    to: Rect,
    floating: bool,
    made: (PendingEntrance, Option<(WindowId, Size)>),
)
    requires
        call_ensures(entrance_reservation, (window, to, floating), made),
    ensures
        made.0.window == window && made.0.to == to && made.0.floating == floating,
        made.1 is Some && (made.1->0).0 == window && (made.1->0).1 == to.size,
{
}

/// A flight holds exactly when something is awaited, and then sends every frame at once; otherwise
/// only the newcomers' slots. Whatever is awaited or chased is followed, an awaited window at the
/// size awaited.
pub proof fn a_hold_sends_every_frame(
    awaiting: Vec<(WindowId, Size)>,
    chase: Vec<(WindowId, Size)>,
    final_frames: Vec<(WindowId, Rect)>,
    entrance_frames: Vec<(WindowId, Rect)>,
    work: (bool, Vec<(WindowId, Size)>, Vec<(WindowId, Rect)>),
    window: WindowId,
)
    requires
        call_ensures(
            frame_zero_work,
            (&awaiting, &chase, &final_frames, &entrance_frames),
            work,
        ),
    ensures
        work.0 <==> awaiting@.len() != 0,
        work.0 ==> work.2@ == final_frames@,
        !work.0 ==> work.2@ == entrance_frames@,
        listed(awaiting@, window) ==> lookup(work.1@, window) == lookup(awaiting@, window),
        !listed(awaiting@, window) ==> lookup(work.1@, window) == lookup(chase@, window),
{
    crate::keyed::the_first_item_added_stays(awaiting@, chase@, window);
}

/// A pass flies when something moves that can be drawn, or when a flight is running already.
pub proof fn a_still_pass_starts_no_flight(moving_drawable: bool, running: bool, flies: bool)
    requires
        call_ensures(worth_flying, (moving_drawable, running), flies),
    ensures
        flies <==> !(!moving_drawable && !running),
{
}

/// Every window of the pass is managed, and every known window of a real process; a border seen
/// before is not.
pub proof fn a_border_is_never_managed(
    pass: Seq<u32>,
    cached: Seq<WindowId>,
    owed: Seq<WindowId>,
    i: int,
    id: u32,
)
    ensures
        0 <= i < pass.len() ==> managed(pass, cached, owed, pass[i]),
        0 <= i < cached.len() && cached[i].pid != 0 ==> managed(pass, cached, owed, cached[i].idx),
        0 <= i < owed.len() && owed[i].pid != 0 ==> managed(pass, cached, owed, owed[i].idx),
        (forall|j: int| 0 <= j < pass.len() ==> #[trigger] pass[j] != id) && (forall|j: int|
            0 <= j < cached.len() && (#[trigger] cached[j]).idx == id ==> cached[j].pid == 0) && (
        forall|j: int| 0 <= j < owed.len() && (#[trigger] owed[j]).idx == id ==> owed[j].pid == 0)
            ==> !managed(pass, cached, owed, id),
{
}

/// The paces of a flight: passes are gathered for a fortieth of a second and ticks come sixty to the
/// second; a chase looks for one second in all; the bar is recaptured a quarter of a second after,
/// captures owed wait four tenths, and a flight lifts at the latest 350 milliseconds late.
pub proof fn the_paces_of_a_flight()
    ensures
        40 * COALESCE_WINDOW == SECOND,
        59 * FRAME_INTERVAL < SECOND < 60 * FRAME_INTERVAL + 1_000_000,
        REVEAL_CHASE_INTERVAL * REVEAL_CHASE_ATTEMPTS == SECOND,
        REVEAL_CHASE_ATTEMPTS == 125,
        4 * BAR_REFRESH_DELAY == SECOND,
        5 * SETTLE_BEFORE_CAPTURES == 2 * SECOND,
        20 * LIFT_GRACE == 7 * SECOND,
        10 * HOLD_CAP == 3 * SECOND,
        100 * HOLD_RECHECK == SECOND,
        2 * REFRESH_DESTINATION_AT == 100,
        5 * REFRESH_APPLY_BEFORE == 3 * 100,
        MAX_SYNC_ENTRANCE_CAPTURES == 4,
        HANDOVER_THRESHOLD_PT == 2 * crate::geometry::PT,
{
}

/// The words for the log: each reason by its own.
pub proof fn each_reason_has_its_words(
    swap: SwapReason,
    reserve: ReserveReason,
    swapped: &'static str,
    reserved: &'static str,
)
    requires
        call_ensures(SwapReason::label, (swap,), swapped),
        call_ensures(ReserveReason::label, (reserve,), reserved),
    ensures
        swap == SwapReason::Reveal ==> swapped@ == "reveal"@,
        swap == SwapReason::Refresh ==> swapped@ == "refresh"@,
        reserve == ReserveReason::NoServerFrame ==> reserved@ == "no server frame"@,
        reserve == ReserveReason::ZeroServerFrame ==> reserved@ == "zero server frame"@,
        reserve == ReserveReason::CaptureBudget ==> reserved@ == "capture budget"@,
        reserve == ReserveReason::CaptureUnusable ==> reserved@ == "capture unusable"@,
{
}

/// A tile that joins a flight in motion travels for what is left of the flight, never longer than the
/// whole.
pub proof fn a_late_tile_travels_the_rest(duration: u64, progress: Progress, left: u64)
    requires
        call_ensures(late_join_duration, (duration, progress), left),
        progress.total > 0,
    ensures
        left <= duration,
        progress.elapsed == 0 ==> left == duration,
        progress.elapsed >= progress.total ==> left == 0,
{
    crate::time::progress_ends_with_nothing_left(progress.total, duration);
    crate::time::what_is_left_is_in_proportion(progress, duration);
    assert(progress.elapsed == 0 ==> progress == (Progress { elapsed: 0, total: progress.total }));
}

/// A window on screen that some candidate on screen traces has a border.
pub proof fn a_traced_window_has_a_border(
    frame: Rect,
    candidates: Seq<(WindowServerId, Rect)>,
    display: Rect,
    i: int,
)
    requires
        !off_screen(display, frame),
        0 <= i < candidates.len(),
        !off_screen(display, candidates[i].1),
        traces(frame, candidates[i].1),
    ensures
        companion(frame, candidates, display) is Some,
    decreases i,
{
    if forall|j: int|
        0 <= j < i ==> off_screen(display, (#[trigger] candidates[j]).1) || !traces(
            frame,
            candidates[j].1,
        ) {
        assert(first_tracer(frame, candidates, display, i));
    } else {
        let j = choose|j: int|
            0 <= j < i && !off_screen(display, (#[trigger] candidates[j]).1) && traces(
                frame,
                candidates[j].1,
            );
        a_traced_window_has_a_border(frame, candidates, display, j);
    }
}

/// The window reported as worst is the first with the worst miss.
pub proof fn the_first_of_the_worst_is_named(
    final_frames: Vec<(WindowId, Rect)>,
    tiled: Vec<WindowId>,
    actual: Vec<(WindowId, Rect)>,
    display: Rect,
    report: HandoverReport,
    i: int,
)
    requires
        call_ensures(handover_report, (&final_frames, &tiled, &actual, display), report),
        0 <= i < final_frames@.len(),
        measured(final_frames@[i], tiled@, actual@, display),
        miss(final_frames@[i], actual@) > 0,
        forall|j: int|
            0 <= j < final_frames@.len() && measured(
                #[trigger] final_frames@[j],
                tiled@,
                actual@,
                display,
            ) ==> miss(final_frames@[j], actual@) <= miss(final_frames@[i], actual@),
        forall|j: int|
            0 <= j < i && measured(#[trigger] final_frames@[j], tiled@, actual@, display) ==> miss(
                final_frames@[j],
                actual@,
            ) < miss(final_frames@[i], actual@),
    ensures
        report.worst_visible_pt == miss(final_frames@[i], actual@),
        report.worst_wsid == final_frames@[i].0.idx,
{
    let frames = final_frames@;
    assert(measured(frames[i], tiled@, actual@, display));
    assert(miss(frames[i], actual@) <= report.worst_visible_pt);
    let k = choose|k: int|
        {
            &&& 0 <= k < frames.len()
            &&& #[trigger] measured(frames[k], tiled@, actual@, display)
            &&& miss(frames[k], actual@) == report.worst_visible_pt
            &&& frames[k].0.idx == report.worst_wsid
            &&& forall|j: int|
                0 <= j < k && #[trigger] measured(frames[j], tiled@, actual@, display) ==> miss(
                    frames[j],
                    actual@,
                ) < report.worst_visible_pt
        };
    assert(miss(frames[k], actual@) <= miss(frames[i], actual@));
    if k < i {
        assert(miss(frames[k], actual@) < miss(frames[i], actual@));
    } else if i < k {
        assert(measured(frames[i], tiled@, actual@, display));
    }
}

/// Of the warms put off for a window the latest counts, and none put off before is lost.
pub proof fn the_latest_warm_counts(
    deferred: &mut Vec<SnapshotTarget>,
    targets: Vec<SnapshotTarget>,
    done: (),
    at: int,
    window: WindowId,
)
    requires
        call_ensures(defer_warm, (deferred, &targets), done),
        crate::keyed::one_each(old(deferred)@),
        0 <= at < targets@.len(),
        forall|j: int|
            at < j < targets@.len() ==> (#[trigger] targets@[j]).window != targets@[at].window,
    ensures
        lookup(final(deferred)@, targets@[at].window) == Some(targets@[at]),
        listed(final(deferred)@, window) <==> listed(old(deferred)@, window) || listed(
            targets@,
            window,
        ),
        !listed(targets@, window) ==> lookup(final(deferred)@, window) == lookup(
            old(deferred)@,
            window,
        ),
{
    assert forall|j: int| at < j < targets@.len() implies #[trigger] targets@[j].key()
        != targets@[at].key() by {
        assert(targets@[j].window != targets@[at].window);
    }
    crate::keyed::the_latest_item_wins(old(deferred)@, targets@, at);
    crate::keyed::upserting_all_lists_both(old(deferred)@, targets@, window);
}

} // verus!
