//! Composing a pass: which windows are drawn, from where to where, and what is still missing.
use vstd::prelude::*;

use crate::fit::{is_a_resize, outgrown, outgrows, resizes};
use crate::flight::decision::{
    companion, companion_of, entrance_plan, entrance_reservation, entrance_rule, EntranceDecision,
    PendingEntrance, SnapshotTarget, MAX_SYNC_ENTRANCE_CAPTURES,
};
use crate::flight::stack::{is_focus, OverlayTile};
use crate::geometry::{is_off_screen, off_screen, same_frame, Point, Rect, SameAs, Size};
use crate::ids::{synthetic, synthetic_window_id, WindowId, WindowServerId};
use crate::keyed::{get, lookup};
use crate::snapshot::WindowSnapshot;
use crate::surface::{in_overlay, seen_from, surface_travel, to_overlay_space, SurfaceWindow};
use crate::travel::{
    end_of, is_moving, lent_travel, moves, neighbour_travel, resolve_end, resolve_start, start_of,
    travel_subject, worth_animating, worthwhile,
};

verus! {

/// One window's part in an animation, as the caller describes it.
#[derive(Clone, Copy, PartialEq, Eq, Structural, Debug)]
pub struct AnimationRequest {
    pub window: WindowId,
    pub server_id: WindowServerId,
    /// Frame the window is leaving, in display coordinates.
    pub from: Rect,
    /// Frame the window is arriving at, in display coordinates.
    pub to: Rect,
    /// Off the strip, and so in the other group of the stacking order.
    pub floating: bool,
}

impl AnimationRequest {
    /// Both frames lie inside the limit.
    pub open spec fn inside_limit(self) -> bool {
        self.from.inside(1) && self.to.inside(1)
    }
}

/// Every request lies inside the limit.
pub open spec fn requests_inside(requests: Seq<AnimationRequest>) -> bool {
    forall|i: int| 0 <= i < requests.len() ==> (#[trigger] requests[i]).inside_limit()
}

/// What the window server answers about one window.
#[derive(Clone, Copy, PartialEq, Eq, Debug)]
pub struct ServerView {
    /// Where the window is, if the server knows it.
    pub frame: Option<Rect>,
    /// Its place in the server's order, front to back.
    pub order: Option<usize>,
}

impl ServerView {
    /// The frame, if there is one, lies inside the limit.
    pub open spec fn inside_limit(self) -> bool {
        self.frame matches Some(frame) ==> frame.inside(1)
    }

    /// Where the window really is; a frame without extent is no answer.
    pub open spec fn stands(self) -> Option<Rect> {
        match self.frame {
            Some(frame) => if frame.size.width > 0 && frame.size.height > 0 {
                Some(frame)
            } else {
                None
            },
            None => None,
        }
    }

    /// The frame the system shows a new window at: only a frame on this display counts.
    pub open spec fn spawn_on(self, display: Rect) -> Option<Rect> {
        match self.frame {
            Some(frame) => if off_screen(display, frame) {
                None
            } else {
                Some(frame)
            },
            None => None,
        }
    }

    fn spawn(&self, display: Rect) -> (r: Option<Rect>)
        ensures
            r == self.spawn_on(display),
    {
        match self.frame {
            Some(frame) => if is_off_screen(display, frame) {
                None
            } else {
                Some(frame)
            },
            None => None,
        }
    }
}

/// The destinations of the windows that move. A still window is not placed again: the round trip
/// invites another layout pass.
pub open spec fn moving_frames(requests: Seq<AnimationRequest>) -> Seq<(WindowId, Rect)>
    decreases requests.len(),
{
    if requests.len() == 0 {
        Seq::empty()
    } else {
        let before = moving_frames(requests.drop_last());
        if moves(requests.last().from, requests.last().to) {
            before.push((requests.last().window, requests.last().to))
        } else {
            before
        }
    }
}

/// The destinations of the windows that move.
pub fn final_frames_of(requests: &Vec<AnimationRequest>) -> (r: Vec<(WindowId, Rect)>)
    requires
        requests_inside(requests@),
    ensures
        r@ == moving_frames(requests@),
        crate::flight::decision::frames_inside(r@, 1),
{
    let mut out: Vec<(WindowId, Rect)> = Vec::new();
    let mut i: usize = 0;
    while i < requests.len()
        invariant
            i <= requests.len(),
            requests_inside(requests@),
            out@ == moving_frames(requests@.take(i as int)),
            crate::flight::decision::frames_inside(out@, 1),
        decreases requests.len() - i,
    {
        assert(requests@.take(i + 1).drop_last() == requests@.take(i as int));
        assert(requests@[i as int].inside_limit());
        if is_moving(requests[i].from, requests[i].to) {
            out.push((requests[i].window, requests[i].to));
        }
        i += 1;
    }
    assert(requests@.take(requests@.len() as int) == requests@);
    out
}

/// Some request changes its window's size.
pub open spec fn any_resizes(requests: Seq<AnimationRequest>) -> bool {
    exists|i: int|
        0 <= i < requests.len() && resizes((#[trigger] requests[i]).from.size, requests[i].to.size)
}

/// Whether some request changes its window's size.
pub fn any_resize(requests: &Vec<AnimationRequest>) -> (r: bool)
    ensures
        r == any_resizes(requests@),
{
    let mut i: usize = 0;
    while i < requests.len()
        invariant
            i <= requests.len(),
            forall|j: int|
                0 <= j < i ==> !resizes((#[trigger] requests[j]).from.size, requests[j].to.size),
        decreases requests.len() - i,
    {
        if is_a_resize(requests[i].from.size, requests[i].to.size) {
            assert(resizes(requests@[i as int].from.size, requests@[i as int].to.size));
            return true;
        }
        i += 1;
    }
    false
}

/// What the other requests of the pass look like to the one at `index`.
pub open spec fn others_of(requests: Seq<AnimationRequest>, index: int) -> Seq<(Rect, Rect, bool)> {
    requests.remove(index).map_values(|r: AnimationRequest| (r.from, r.to, r.floating))
}

/// The vector the strip lends the request at `index`; a floating window borrows none.
pub open spec fn travel_at(
    requests: Seq<AnimationRequest>,
    index: int,
    display: Rect,
) -> Option<Point> {
    let request = requests[index];
    if request.floating {
        None
    } else {
        lent_travel(
            if off_screen(display, request.to) {
                request.from
            } else {
                request.to
            },
            others_of(requests, index),
            display,
        )
    }
}

/// The vector the strip lends the request at `index`.
pub fn strip_travel(requests: &Vec<AnimationRequest>, index: usize, display: Rect) -> (r: Option<
    Point,
>)
    requires
        requests_inside(requests@),
        index < requests.len(),
    ensures
        r == travel_at(requests@, index as int, display),
        r matches Some(d) ==> d.inside(2),
{
    let request: AnimationRequest = requests[index];
    if request.floating {
        return None;
    }
    let mut others: Vec<(Rect, Rect, bool)> = Vec::new();
    let mut i: usize = 0;
    while i < requests.len()
        invariant
            i <= requests.len(),
            index < requests.len(),
            requests_inside(requests@),
            others.len() == (if i <= index {
                i as int
            } else {
                i - 1
            }),
            forall|j: int|
                0 <= j < others.len() ==> #[trigger] others[j] == (
                    requests@.remove(index as int)[j].from,
                    requests@.remove(index as int)[j].to,
                    requests@.remove(index as int)[j].floating,
                ),
            forall|j: int|
                0 <= j < others.len() ==> (#[trigger] others[j]).0.inside(1)
                    && others[j].1.inside(1),
        decreases requests.len() - i,
    {
        if i != index {
            let other: AnimationRequest = requests[i];
            proof {
                let k = others.len() as int;
                assert(requests@.remove(index as int)[k] == requests@[i as int]);
                assert(requests@[i as int].inside_limit());
            }
            others.push((other.from, other.to, other.floating));
        }
        i += 1;
    }
    assert(others@ =~= others_of(requests@, index as int));
    neighbour_travel(travel_subject(request.from, request.to, display), &others, display)
}

/// What became of one request.
#[derive(Clone, Copy, PartialEq, Eq, Debug)]
pub enum Composed {
    /// It never shows enough of itself on the display.
    OffScreen,
    /// It is drawn from a picture in hand, from `start` to `end`. `held` is the size it waits for
    /// when the picture cannot cover the destination.
    Drawn { tile: OverlayTile, start: Rect, end: Rect, held: Option<(WindowId, Size)> },
    /// It had no picture and travels from where the system showed it, drawn from a capture made now.
    /// One that stands in its slot already is a window with a cold cache, not an open.
    Spawned { tile: OverlayTile, from: Rect, to: Rect, standing: bool },
    /// It had no picture: a place is reserved until one lands.
    Reserved { entrance: PendingEntrance, hold: (WindowId, Size) },
}

/// Where the request's tile starts and ends, on the display.
pub open spec fn leg(
    request: AnimationRequest,
    view: ServerView,
    travel: Option<Point>,
    display: Rect,
) -> (Rect, Rect) {
    let start = start_of(view.stands(), request.from, request.to, display, travel);
    (start, end_of(start, request.to, display, travel))
}

/// A capture of the spawn frame is worth making: the frame has extent and the pass has budget left.
pub open spec fn spawn_capture_due(spawn: Option<Rect>, budget_left: bool) -> bool {
    spawn matches Some(frame) && frame.size.width > 0 && frame.size.height > 0 && budget_left
}

/// What becomes of a window that has a picture in hand.
pub open spec fn drawn_from(
    request: AnimationRequest,
    start: Rect,
    end: Rect,
    view: ServerView,
    snapshot: WindowSnapshot,
    focus: Option<WindowId>,
    display: Rect,
) -> Composed {
    Composed::Drawn {
        tile: OverlayTile {
            window: request.window,
            from: in_overlay(start, display),
            to: in_overlay(end, display),
            snapshot,
            floating: request.floating,
            server_order: view.order,
            depth: 0,
            companion: false,
            focused: focus == Some(request.window),
        },
        start,
        end,
        held: if outgrown(snapshot.coverage.covered, request.to.size) {
            Some((request.window, request.to.size))
        } else {
            None
        },
    }
}

/// A newly opened window on its way from where the system showed it to its slot: in front and
/// focused, unless it stands there already.
pub open spec fn entering(
    request: AnimationRequest,
    view: ServerView,
    snapshot: WindowSnapshot,
    from: Rect,
    to: Rect,
    focus: Option<WindowId>,
    display: Rect,
) -> Composed {
    let standing = same_frame(from, to);
    Composed::Spawned {
        tile: OverlayTile {
            window: request.window,
            from: in_overlay(from, display),
            to: in_overlay(to, display),
            snapshot,
            floating: request.floating,
            server_order: if standing {
                view.order
            } else {
                Some(0)
            },
            depth: 0,
            companion: false,
            focused: if standing {
                focus == Some(request.window)
            } else {
                true
            },
        },
        from,
        to,
        standing,
    }
}

/// What becomes of a window that has no picture: it travels from its spawn frame where a capture of
/// that is usable, and has a place reserved otherwise.
pub open spec fn opened(
    request: AnimationRequest,
    view: ServerView,
    capture: Option<WindowSnapshot>,
    budget_left: bool,
    focus: Option<WindowId>,
    display: Rect,
) -> Composed {
    let spawn = view.spawn_on(display);
    let usable = spawn_capture_due(spawn, budget_left) && capture is Some
        && capture->0.coverage.usable();
    match entrance_rule(spawn, request.to, usable, budget_left) {
        EntranceDecision::Travel { from, to } => entering(
            request,
            view,
            capture->0,
            from,
            to,
            focus,
            display,
        ),
        EntranceDecision::Reserve(reason) => Composed::Reserved {
            entrance: PendingEntrance {
                window: request.window,
                to: in_overlay(request.to, display),
                floating: request.floating,
            },
            hold: (request.window, request.to.size),
        },
    }
}

/// What becomes of a request that is worth animating.
pub open spec fn drawn(
    request: AnimationRequest,
    start: Rect,
    end: Rect,
    view: ServerView,
    cached: Option<WindowSnapshot>,
    capture: Option<WindowSnapshot>,
    budget_left: bool,
    focus: Option<WindowId>,
    display: Rect,
) -> Composed {
    match cached {
        Some(snapshot) => drawn_from(request, start, end, view, snapshot, focus, display),
        None => opened(request, view, capture, budget_left, focus, display),
    }
}

/// What becomes of one request.
pub open spec fn composed(
    request: AnimationRequest,
    view: ServerView,
    travel: Option<Point>,
    cached: Option<WindowSnapshot>,
    capture: Option<WindowSnapshot>,
    budget_left: bool,
    focus: Option<WindowId>,
    display: Rect,
) -> Composed {
    let (start, end) = leg(request, view, travel, display);
    if worthwhile(start, end, display) {
        drawn(request, start, end, view, cached, capture, budget_left, focus, display)
    } else {
        Composed::OffScreen
    }
}

/// Whether a request wants its spawn frame captured before it is composed: it is worth animating,
/// has no picture, and a capture is due.
pub fn wants_spawn_capture(
    request: &AnimationRequest,
    view: &ServerView,
    travel: Option<Point>,
    cached: Option<WindowSnapshot>,
    budget_left: bool,
    display: Rect,
) -> (r: bool)
    requires
        request.inside_limit(),
        view.inside_limit(),
        display.inside(1),
        travel matches Some(d) ==> d.inside(2),
    ensures
        r == ({
            let (start, end) = leg(*request, *view, travel, display);
            worthwhile(start, end, display) && cached is None && spawn_capture_due(
                view.spawn_on(display),
                budget_left,
            )
        }),
{
    let (start, end): (Rect, Rect) = request_leg(request, view, travel, display);
    if !worth_animating(start, end, display) || cached.is_some() {
        return false;
    }
    match view.spawn(display) {
        Some(frame) => frame.size.width > 0 && frame.size.height > 0 && budget_left,
        None => false,
    }
}

fn request_leg(
    request: &AnimationRequest,
    view: &ServerView,
    travel: Option<Point>,
    display: Rect,
) -> (r: (Rect, Rect))
    requires
        request.inside_limit(),
        view.inside_limit(),
        display.inside(1),
        travel matches Some(d) ==> d.inside(2),
    ensures
        r == leg(*request, *view, travel, display),
        r.0.inside(3),
        r.1.inside(5),
{
    let stands: Option<Rect> = match view.frame {
        Some(frame) => if frame.size.width > 0 && frame.size.height > 0 {
            Some(frame)
        } else {
            None
        },
        None => None,
    };
    let start: Rect = resolve_start(stands, request.from, request.to, display, travel);
    // The tile's visual destination; the real park stays in the request.
    let end: Rect = resolve_end(start, request.to, display, travel);
    (start, end)
}

/// Decides one request. `cached` is the usable picture in hand, `capture` what capturing the spawn
/// frame gave where that was wanted.
pub fn compose_request(
    request: &AnimationRequest,
    view: &ServerView,
    travel: Option<Point>,
    cached: Option<WindowSnapshot>,
    capture: Option<WindowSnapshot>,
    budget_left: bool,
    focus: Option<WindowId>,
    display: Rect,
) -> (r: Composed)
    requires
        request.inside_limit(),
        view.inside_limit(),
        display.inside(1),
        travel matches Some(d) ==> d.inside(2),
    ensures
        r == composed(
            *request,
            *view,
            travel,
            cached,
            capture,
            budget_left,
            focus,
            display,
        ),
        r matches Composed::Drawn { tile, start, end, held } ==> start.inside(3)
            && tile.from.inside(9) && tile.to.inside(9),
        r matches Composed::Spawned { tile, from, to, standing } ==> from.inside(3)
            && tile.from.inside(9) && tile.to.inside(9),
{
    let (start, end): (Rect, Rect) = request_leg(request, view, travel, display);
    if !worth_animating(start, end, display) {
        return Composed::OffScreen;
    }
    match cached {
        Some(snapshot) => draw_cached(request, start, end, view, snapshot, focus, display),
        None => open_window(request, view, capture, budget_left, focus, display),
    }
}

fn draw_cached(
    request: &AnimationRequest,
    start: Rect,
    end: Rect,
    view: &ServerView,
    snapshot: WindowSnapshot,
    focus: Option<WindowId>,
    display: Rect,
) -> (r: Composed)
    requires
        start.inside(3),
        end.inside(5),
        display.inside(1),
    ensures
        r == drawn_from(*request, start, end, *view, snapshot, focus, display),
        r matches Composed::Drawn { tile, start: s, end: e, held } && s == start
            && tile.from.inside(9) && tile.to.inside(9),
{
    // A grow whose picture cannot cover the destination holds for the reveal.
    let held: Option<(WindowId, Size)> = if outgrows(snapshot.coverage.covered, request.to.size) {
        Some((request.window, request.to.size))
    } else {
        None
    };
    let tile: OverlayTile = OverlayTile {
        window: request.window,
        from: to_overlay_space(start, display),
        to: to_overlay_space(end, display),
        snapshot,
        floating: request.floating,
        server_order: view.order,
        depth: 0,
        companion: false,
        focused: is_focus(focus, request.window),
    };
    Composed::Drawn { tile, start, end, held }
}

fn open_window(
    request: &AnimationRequest,
    view: &ServerView,
    capture: Option<WindowSnapshot>,
    budget_left: bool,
    focus: Option<WindowId>,
    display: Rect,
) -> (r: Composed)
    requires
        request.inside_limit(),
        view.inside_limit(),
        display.inside(1),
    ensures
        r == opened(*request, *view, capture, budget_left, focus, display),
        r !is Drawn,
        r matches Composed::Spawned { tile, from, to, standing } ==> from.inside(3)
            && tile.from.inside(9) && tile.to.inside(9),
{
    let spawn: Option<Rect> = view.spawn(display);
    let usable: bool = match spawn {
        Some(frame) => if frame.size.width > 0 && frame.size.height > 0 && budget_left {
            match capture {
                Some(picture) => picture.is_usable(),
                None => false,
            }
        } else {
            false
        },
        None => false,
    };
    match entrance_plan(spawn, request.to, usable, budget_left) {
        EntranceDecision::Travel { from, to } => match capture {
            Some(snapshot) => travel_in(request, view, snapshot, from, to, focus, display),
            None => Composed::OffScreen,
        },
        EntranceDecision::Reserve(_) => {
            let (entrance, _hold): (PendingEntrance, Option<(WindowId, Size)>) =
                entrance_reservation(
                request.window,
                to_overlay_space(request.to, display),
                request.floating,
            );
            Composed::Reserved { entrance, hold: (request.window, request.to.size) }
        },
    }
}

fn travel_in(
    request: &AnimationRequest,
    view: &ServerView,
    snapshot: WindowSnapshot,
    from: Rect,
    to: Rect,
    focus: Option<WindowId>,
    display: Rect,
) -> (r: Composed)
    requires
        from.inside(1),
        to.inside(1),
        display.inside(1),
    ensures
        r == entering(*request, *view, snapshot, from, to, focus, display),
        r matches Composed::Spawned { tile, from: f, to: t, standing } && f == from
            && tile.from.inside(9) && tile.to.inside(9),
{
    let standing: bool = from.same_as(to);
    let tile: OverlayTile = OverlayTile {
        window: request.window,
        from: to_overlay_space(from, display),
        to: to_overlay_space(to, display),
        snapshot,
        floating: request.floating,
        server_order: if standing {
            view.order
        } else {
            Some(0)
        },
        depth: 0,
        companion: false,
        focused: if standing {
            is_focus(focus, request.window)
        } else {
            true
        },
    };
    Composed::Spawned { tile, from, to, standing }
}

/// A pass being composed: what each request added.
pub struct Composition {
    pub tiles: Vec<OverlayTile>,
    pub offscreen: usize,
    pub skipped: usize,
    /// Windows that had no picture, to be captured for the next switch.
    pub needs_capture: Vec<SnapshotTarget>,
    pub entrances: Vec<PendingEntrance>,
    pub awaiting: Vec<(WindowId, Size)>,
    /// Newly opened windows travelling from their spawn frame, in overlay coordinates.
    pub spawn_entrances: Vec<(WindowId, Rect, Rect)>,
    pub chase: Vec<(WindowId, Size)>,
    /// The slots of the windows that are chased.
    pub entrance_frames: Vec<(WindowId, Rect)>,
    pub sync_captures: usize,
    /// Where the windows that borders may trace really start.
    pub starts: Vec<(WindowId, Rect)>,
    /// Window, start, end and floating of everything the plan groups.
    pub resolved: Vec<(WindowId, Rect, Rect, bool)>,
}

/// What a window without a picture adds to the captures: one at the size it has now.
pub open spec fn capture_for(request: AnimationRequest, cached: Option<WindowSnapshot>) -> Seq<
    SnapshotTarget,
> {
    if cached is None {
        seq![
            SnapshotTarget {
                window: request.window,
                server_id: request.server_id,
                size: request.from.size,
            },
        ]
    } else {
        Seq::empty()
    }
}

/// The optional hold as a list.
pub open spec fn as_holds(held: Option<(WindowId, Size)>) -> Seq<(WindowId, Size)> {
    match held {
        Some(entry) => seq![entry],
        None => Seq::empty(),
    }
}

/// `after` is `before` with what `outcome` adds for `request`.
pub open spec fn takes_in(
    before: Composition,
    after: Composition,
    request: AnimationRequest,
    cached: Option<WindowSnapshot>,
    outcome: Composed,
) -> bool {
    match outcome {
        Composed::OffScreen => {
            &&& after.offscreen == before.offscreen + 1
            &&& after.skipped == before.skipped
            &&& after.tiles@ == before.tiles@
            &&& after.needs_capture@ == before.needs_capture@
            &&& after.entrances@ == before.entrances@
            &&& after.awaiting@ == before.awaiting@
            &&& after.spawn_entrances@ == before.spawn_entrances@
            &&& after.chase@ == before.chase@
            &&& after.entrance_frames@ == before.entrance_frames@
            &&& after.starts@ == before.starts@
            &&& after.resolved@ == before.resolved@
        },
        Composed::Drawn { tile, start, end, held } => {
            &&& after.offscreen == before.offscreen
            &&& after.skipped == before.skipped
            &&& after.tiles@ == before.tiles@.push(tile)
            &&& after.needs_capture@ == before.needs_capture@ + capture_for(request, cached)
            &&& after.entrances@ == before.entrances@
            &&& after.awaiting@ == before.awaiting@ + as_holds(held)
            &&& after.spawn_entrances@ == before.spawn_entrances@
            &&& after.chase@ == before.chase@
            &&& after.entrance_frames@ == before.entrance_frames@
            &&& after.starts@ == before.starts@.push((request.window, start))
            &&& after.resolved@ == before.resolved@.push(
                (request.window, start, end, request.floating),
            )
        },
        Composed::Spawned { tile, from, to, standing } => {
            &&& after.offscreen == before.offscreen
            &&& after.skipped == before.skipped
            &&& after.tiles@ == before.tiles@.push(tile)
            &&& after.needs_capture@ == before.needs_capture@ + capture_for(request, cached)
            &&& after.entrances@ == before.entrances@
            &&& after.awaiting@ == before.awaiting@
            &&& if standing {
                &&& after.starts@ == before.starts@.push((request.window, from))
                &&& after.resolved@ == before.resolved@.push(
                    (request.window, from, to, request.floating),
                )
                &&& after.spawn_entrances@ == before.spawn_entrances@
                &&& after.chase@ == before.chase@
                &&& after.entrance_frames@ == before.entrance_frames@
            } else {
                &&& after.starts@ == before.starts@
                &&& after.resolved@ == before.resolved@
                &&& after.spawn_entrances@ == before.spawn_entrances@.push(
                    (request.window, tile.from, tile.to),
                )
                &&& after.chase@ == before.chase@.push((request.window, to.size))
                &&& after.entrance_frames@ == before.entrance_frames@.push((request.window, to))
            }
        },
        Composed::Reserved { entrance, hold } => {
            &&& after.offscreen == before.offscreen
            &&& after.skipped == before.skipped + 1
            &&& after.tiles@ == before.tiles@
            &&& after.needs_capture@ == before.needs_capture@ + capture_for(request, cached)
            &&& after.entrances@ == before.entrances@.push(entrance)
            &&& after.awaiting@ == before.awaiting@.push(hold)
            &&& after.spawn_entrances@ == before.spawn_entrances@
            &&& after.chase@ == before.chase@
            &&& after.entrance_frames@ == before.entrance_frames@
            &&& after.starts@ == before.starts@
            &&& after.resolved@ == before.resolved@
        },
    }
}

impl Composition {
    /// Nothing composed yet.
    pub open spec fn is_fresh(&self) -> bool {
        &&& self.tiles@.len() == 0
        &&& self.offscreen == 0
        &&& self.skipped == 0
        &&& self.needs_capture@.len() == 0
        &&& self.entrances@.len() == 0
        &&& self.awaiting@.len() == 0
        &&& self.spawn_entrances@.len() == 0
        &&& self.chase@.len() == 0
        &&& self.entrance_frames@.len() == 0
        &&& self.sync_captures == 0
        &&& self.starts@.len() == 0
        &&& self.resolved@.len() == 0
    }

    /// The frames borders are matched against stay inside the limit.
    pub open spec fn inside_limit(&self) -> bool {
        &&& forall|i: int| 0 <= i < self.starts.len() ==> (#[trigger] self.starts[i]).1.inside(3)
        &&& forall|i: int|
            0 <= i < self.tiles.len() ==> (#[trigger] self.tiles[i]).from.inside(9)
                && self.tiles[i].to.inside(9)
    }

    pub fn new() -> (r: Composition)
        ensures
            r.is_fresh(),
            r.inside_limit(),
    {
        Composition {
            tiles: Vec::new(),
            offscreen: 0,
            skipped: 0,
            needs_capture: Vec::new(),
            entrances: Vec::new(),
            awaiting: Vec::new(),
            spawn_entrances: Vec::new(),
            chase: Vec::new(),
            entrance_frames: Vec::new(),
            sync_captures: 0,
            starts: Vec::new(),
            resolved: Vec::new(),
        }
    }

    /// Whether the pass may still capture a new window at its spawn frame.
    pub fn budget_left(&self) -> (r: bool)
        ensures
            r == (self.sync_captures < MAX_SYNC_ENTRANCE_CAPTURES),
    {
        self.sync_captures < MAX_SYNC_ENTRANCE_CAPTURES
    }

    /// Takes one request's outcome in. `captured` says whether its spawn frame was captured.
    pub fn take(
        &mut self,
        request: &AnimationRequest,
        cached: Option<WindowSnapshot>,
        captured: bool,
        outcome: Composed,
    )
        requires
            old(self).inside_limit(),
            old(self).offscreen < usize::MAX,
            old(self).skipped < usize::MAX,
            old(self).sync_captures < usize::MAX,
            outcome matches Composed::Drawn { tile, start, end, held } ==> start.inside(3)
                && tile.from.inside(9) && tile.to.inside(9),
            outcome matches Composed::Spawned { tile, from, to, standing } ==> from.inside(3)
                && tile.from.inside(9) && tile.to.inside(9),
        ensures
            takes_in(*old(self), *final(self), *request, cached, outcome),
            final(self).sync_captures == old(self).sync_captures + (if captured {
                1int
            } else {
                0int
            }),
            final(self).inside_limit(),
    {
        if captured {
            self.sync_captures = self.sync_captures + 1;
        }
        if let Composed::OffScreen = outcome {
            self.offscreen = self.offscreen + 1;
            return;
        }
        if cached.is_none() {
            self.needs_capture.push(
                SnapshotTarget {
                    window: request.window,
                    server_id: request.server_id,
                    size: request.from.size,
                },
            );
        }
        assert(self.needs_capture@ =~= old(self).needs_capture@ + capture_for(*request, cached));
        match outcome {
            Composed::OffScreen => {},
            Composed::Drawn { tile, start, end, held } => {
                if let Some(entry) = held {
                    self.awaiting.push(entry);
                }
                assert(self.awaiting@ =~= old(self).awaiting@ + as_holds(held));
                self.tiles.push(tile);
                self.starts.push((request.window, start));
                self.resolved.push((request.window, start, end, request.floating));
            },
            Composed::Spawned { tile, from, to, standing } => {
                self.tiles.push(tile);
                if standing {
                    self.starts.push((request.window, from));
                    self.resolved.push((request.window, from, to, request.floating));
                } else {
                    self.spawn_entrances.push((request.window, tile.from, tile.to));
                    self.chase.push((request.window, to.size));
                    self.entrance_frames.push((request.window, to));
                }
            },
            Composed::Reserved { entrance, hold } => {
                self.skipped = self.skipped + 1;
                self.entrances.push(entrance);
                self.awaiting.push(hold);
            },
        }
    }
}

/// A window borders may trace: its real frame, its tile's two ends and its depth.
#[derive(Clone, Copy, PartialEq, Eq, Debug)]
pub struct Anchor {
    pub actual: Rect,
    pub from: Rect,
    pub to: Rect,
    pub depth: usize,
}

/// The anchors of the windows in `starts` that have a tile, in order.
pub open spec fn anchors_for(starts: Seq<(WindowId, Rect)>, tiles: Seq<OverlayTile>) -> Seq<Anchor>
    decreases starts.len(),
{
    if starts.len() == 0 {
        Seq::empty()
    } else {
        let before = anchors_for(starts.drop_last(), tiles);
        match lookup(tiles, starts.last().0) {
            Some(tile) => before.push(
                Anchor {
                    actual: starts.last().1,
                    from: tile.from,
                    to: tile.to,
                    depth: tile.depth,
                },
            ),
            None => before,
        }
    }
}

/// Every anchor lies inside the limit.
pub open spec fn anchors_inside(anchors: Seq<Anchor>) -> bool {
    forall|i: int|
        0 <= i < anchors.len() ==> (#[trigger] anchors[i]).actual.inside(3)
            && anchors[i].from.inside(9) && anchors[i].to.inside(9)
}

/// The anchors of the windows in `starts` that have a tile.
pub fn anchors_of(starts: &Vec<(WindowId, Rect)>, tiles: &Vec<OverlayTile>) -> (r: Vec<Anchor>)
    requires
        forall|i: int| 0 <= i < starts.len() ==> (#[trigger] starts[i]).1.inside(3),
        forall|i: int|
            0 <= i < tiles.len() ==> (#[trigger] tiles[i]).from.inside(9) && tiles[i].to.inside(9),
    ensures
        r@ == anchors_for(starts@, tiles@),
        anchors_inside(r@),
{
    let mut out: Vec<Anchor> = Vec::new();
    let mut i: usize = 0;
    while i < starts.len()
        invariant
            i <= starts.len(),
            out@ == anchors_for(starts@.take(i as int), tiles@),
            anchors_inside(out@),
            forall|j: int| 0 <= j < starts.len() ==> (#[trigger] starts[j]).1.inside(3),
            forall|j: int|
                0 <= j < tiles.len() ==> (#[trigger] tiles[j]).from.inside(9)
                    && tiles[j].to.inside(9),
        decreases starts.len() - i,
    {
        assert(starts@.take(i + 1).drop_last() == starts@.take(i as int));
        let (window, actual): (WindowId, Rect) = starts[i];
        if let Some(at) = crate::keyed::find(tiles, window) {
            let tile: OverlayTile = tiles[at];
            out.push(Anchor { actual, from: tile.from, to: tile.to, depth: tile.depth });
        }
        i += 1;
    }
    assert(starts@.take(starts@.len() as int) == starts@);
    out
}

/// The visible windows nobody manages, in the order listed.
pub open spec fn unmanaged(
    visible: Seq<(WindowServerId, Rect)>,
    managed_ids: Seq<u32>,
) -> Seq<(WindowServerId, Rect)>
    decreases visible.len(),
{
    if visible.len() == 0 {
        Seq::empty()
    } else {
        let before = unmanaged(visible.drop_last(), managed_ids);
        if managed_ids.contains(visible.last().0.0) {
            before
        } else {
            before.push(visible.last())
        }
    }
}

/// Every listed frame lies inside the limit.
pub open spec fn listing_inside(visible: Seq<(WindowServerId, Rect)>) -> bool {
    forall|i: int| 0 <= i < visible.len() ==> (#[trigger] visible[i]).1.inside(1)
}

fn contains_id(ids: &Vec<u32>, id: u32) -> (r: bool)
    ensures
        r == ids@.contains(id),
{
    let mut i: usize = 0;
    while i < ids.len()
        invariant
            i <= ids.len(),
            forall|j: int| 0 <= j < i ==> ids[j] != id,
        decreases ids.len() - i,
    {
        if ids[i] == id {
            assert(ids@[i as int] == id);
            return true;
        }
        i += 1;
    }
    false
}

/// The visible windows nobody manages: those that may be borders.
pub fn companion_candidates(visible: &Vec<(WindowServerId, Rect)>, managed_ids: &Vec<u32>) -> (r:
    Vec<(WindowServerId, Rect)>)
    requires
        listing_inside(visible@),
    ensures
        r@ == unmanaged(visible@, managed_ids@),
        listing_inside(r@),
{
    let mut out: Vec<(WindowServerId, Rect)> = Vec::new();
    let mut i: usize = 0;
    while i < visible.len()
        invariant
            i <= visible.len(),
            listing_inside(visible@),
            listing_inside(out@),
            out@ == unmanaged(visible@.take(i as int), managed_ids@),
        decreases visible.len() - i,
    {
        assert(visible@.take(i + 1).drop_last() == visible@.take(i as int));
        assert(visible@[i as int].1.inside(1));
        if !contains_id(managed_ids, visible[i].0.0) {
            out.push(visible[i]);
        }
        i += 1;
    }
    assert(visible@.take(visible@.len() as int) == visible@);
    out
}

/// A border's place beside `rect`, when it stands at `frame` around a window at `actual`.
pub open spec fn following(rect: Rect, frame: Rect, actual: Rect) -> Rect {
    Rect {
        origin: Point {
            x: (rect.origin.x + (frame.origin.x - actual.origin.x)) as i64,
            y: (rect.origin.y + (frame.origin.y - actual.origin.y)) as i64,
        },
        size: frame.size,
    }
}

fn follow(rect: Rect, frame: Rect, actual: Rect) -> (r: Rect)
    requires
        rect.inside(9),
        frame.inside(1),
        actual.inside(3),
    ensures
        r == following(rect, frame, actual),
{
    Rect {
        origin: Point {
            x: rect.origin.x + (frame.origin.x - actual.origin.x),
            y: rect.origin.y + (frame.origin.y - actual.origin.y),
        },
        size: frame.size,
    }
}

/// The borders found for a pass.
pub struct Companions {
    /// Tiles of the borders that have a picture.
    pub tiles: Vec<OverlayTile>,
    /// Every border found, to be kept warm.
    pub targets: Vec<SnapshotTarget>,
    /// The borders found that have no picture.
    pub missing: Vec<SnapshotTarget>,
}

/// The borders of the first anchors, as a record.
pub struct Found {
    pub claimed: Seq<u32>,
    pub tiles: Seq<OverlayTile>,
    pub targets: Seq<SnapshotTarget>,
    pub missing: Seq<SnapshotTarget>,
}

/// The tile of a border of `anchor`.
pub open spec fn border_tile(
    window: WindowId,
    anchor: Anchor,
    frame: Rect,
    snapshot: WindowSnapshot,
) -> OverlayTile {
    OverlayTile {
        window,
        from: following(anchor.from, frame, anchor.actual),
        to: following(anchor.to, frame, anchor.actual),
        snapshot,
        floating: false,
        server_order: None,
        depth: anchor.depth,
        companion: true,
        focused: false,
    }
}

/// The borders tracing `anchors`: one border traces one window, stacked twins share a frame.
/// `pictures` holds the usable picture of each candidate that has one.
pub open spec fn found(
    anchors: Seq<Anchor>,
    candidates: Seq<(WindowServerId, Rect)>,
    pictures: Seq<(WindowId, WindowSnapshot)>,
    display: Rect,
) -> Found
    decreases anchors.len(),
{
    if anchors.len() == 0 {
        Found {
            claimed: Seq::empty(),
            tiles: Seq::empty(),
            targets: Seq::empty(),
            missing: Seq::empty(),
        }
    } else {
        let before = found(anchors.drop_last(), candidates, pictures, display);
        let anchor = anchors.last();
        match companion(anchor.actual, candidates, display) {
            None => before,
            Some((server_id, frame)) => if before.claimed.contains(server_id.0) {
                before
            } else {
                let window = synthetic(server_id);
                let target = SnapshotTarget { window, server_id, size: frame.size };
                Found {
                    claimed: before.claimed.push(server_id.0),
                    targets: before.targets.push(target),
                    tiles: match lookup(pictures, window) {
                        Some(entry) => before.tiles.push(
                            border_tile(window, anchor, frame, entry.1),
                        ),
                        None => before.tiles,
                    },
                    missing: match lookup(pictures, window) {
                        Some(entry) => before.missing,
                        None => before.missing.push(target),
                    },
                }
            },
        }
    }
}

/// Tiles for the border windows tracing the animated windows.
pub fn companion_tiles(
    anchors: &Vec<Anchor>,
    candidates: &Vec<(WindowServerId, Rect)>,
    pictures: &Vec<(WindowId, WindowSnapshot)>,
    display: Rect,
) -> (r: Companions)
    requires
        anchors_inside(anchors@),
        listing_inside(candidates@),
    ensures
        r.tiles@ == found(anchors@, candidates@, pictures@, display).tiles,
        r.targets@ == found(anchors@, candidates@, pictures@, display).targets,
        r.missing@ == found(anchors@, candidates@, pictures@, display).missing,
{
    let mut claimed: Vec<u32> = Vec::new();
    let mut out: Companions = Companions {
        tiles: Vec::new(),
        targets: Vec::new(),
        missing: Vec::new(),
    };
    let mut i: usize = 0;
    while i < anchors.len()
        invariant
            i <= anchors.len(),
            anchors_inside(anchors@),
            listing_inside(candidates@),
            ({
                let so_far = found(anchors@.take(i as int), candidates@, pictures@, display);
                &&& claimed@ == so_far.claimed
                &&& out.tiles@ == so_far.tiles
                &&& out.targets@ == so_far.targets
                &&& out.missing@ == so_far.missing
            }),
        decreases anchors.len() - i,
    {
        assert(anchors@.take(i + 1).drop_last() == anchors@.take(i as int));
        assert(anchors@[i as int].actual.inside(3));
        let anchor: Anchor = anchors[i];
        if let Some((server_id, frame)) = companion_of(anchor.actual, candidates, display) {
            if !contains_id(&claimed, server_id.0) {
                proof {
                    a_companion_is_a_candidate(anchor.actual, candidates@, display);
                }
                claimed.push(server_id.0);
                let window: WindowId = synthetic_window_id(server_id);
                let target: SnapshotTarget = SnapshotTarget { window, server_id, size: frame.size };
                out.targets.push(target);
                match get(pictures, window) {
                    Some(entry) => {
                        out.tiles.push(
                            OverlayTile {
                                window,
                                from: follow(anchor.from, frame, anchor.actual),
                                to: follow(anchor.to, frame, anchor.actual),
                                snapshot: entry.1,
                                floating: false,
                                server_order: None,
                                // Its window's depth; restacking leaves companions alone.
                                depth: anchor.depth,
                                companion: true,
                                focused: false,
                            },
                        );
                    },
                    None => {
                        out.missing.push(target);
                    },
                }
            }
        }
        i += 1;
    }
    assert(anchors@.take(anchors@.len() as int) == anchors@);
    out
}

proof fn a_companion_is_a_candidate(
    frame: Rect,
    candidates: Seq<(WindowServerId, Rect)>,
    display: Rect,
)
    requires
        listing_inside(candidates),
        companion(frame, candidates, display) is Some,
    ensures
        (companion(frame, candidates, display)->0).1.inside(1),
{
    let c = choose|i: int|
        crate::flight::decision::first_tracer(frame, candidates, display, i);
    assert(candidates[c].1.inside(1));
}

/// A border is matched at most once, however many windows share a frame.
pub proof fn a_border_traces_one_window(
    anchors: Seq<Anchor>,
    candidates: Seq<(WindowServerId, Rect)>,
    pictures: Seq<(WindowId, WindowSnapshot)>,
    display: Rect,
)
    ensures
        found(anchors, candidates, pictures, display).claimed.no_duplicates(),
        found(anchors, candidates, pictures, display).claimed.len() == found(
            anchors,
            candidates,
            pictures,
            display,
        ).targets.len(),
        found(anchors, candidates, pictures, display).tiles.len() + found(
            anchors,
            candidates,
            pictures,
            display,
        ).missing.len() == found(anchors, candidates, pictures, display).targets.len(),
    decreases anchors.len(),
{
    if anchors.len() > 0 {
        a_border_traces_one_window(anchors.drop_last(), candidates, pictures, display);
    }
}

/// What a strip movement made of its windows.
pub struct SurfaceComposition {
    pub tiles: Vec<OverlayTile>,
    /// Where the windows that borders may trace really are.
    pub starts: Vec<(WindowId, Rect)>,
    /// Windows without a usable picture: placed, but not drawn.
    pub missing: usize,
    /// Windows whose picture is stretched.
    pub misshapen: usize,
}

/// The tile of one window of a strip movement.
pub open spec fn surface_tile(
    window: SurfaceWindow,
    snapshot: WindowSnapshot,
    order: Option<usize>,
    from_offset: Point,
    to_offset: Point,
    focus: Option<WindowId>,
) -> OverlayTile {
    OverlayTile {
        window: window.window,
        from: seen_from(window.frame, from_offset, window.pinned),
        to: seen_from(window.frame, to_offset, window.pinned),
        snapshot,
        floating: window.floating,
        server_order: order,
        depth: 0,
        companion: false,
        focused: focus == Some(window.window),
    }
}

impl SurfaceComposition {
    /// The frames borders are matched against stay inside the limit.
    pub open spec fn inside_limit(&self) -> bool {
        &&& forall|i: int| 0 <= i < self.starts.len() ==> (#[trigger] self.starts[i]).1.inside(3)
        &&& forall|i: int|
            0 <= i < self.tiles.len() ==> (#[trigger] self.tiles[i]).from.inside(9)
                && self.tiles[i].to.inside(9)
    }

    pub fn new() -> (r: SurfaceComposition)
        ensures
            r.tiles@.len() == 0,
            r.starts@.len() == 0,
            r.missing == 0,
            r.misshapen == 0,
            r.inside_limit(),
    {
        SurfaceComposition { tiles: Vec::new(), starts: Vec::new(), missing: 0, misshapen: 0 }
    }

    /// Takes one window of a strip movement in. A wrong-shaped picture is stretched rather than
    /// dropped; a window without one is still placed, and warmed once the movement settles.
    pub fn take(
        &mut self,
        window: &SurfaceWindow,
        view: &ServerView,
        cached: Option<WindowSnapshot>,
        from_offset: Point,
        to_offset: Point,
        focus: Option<WindowId>,
    )
        requires
            old(self).inside_limit(),
            old(self).missing < usize::MAX,
            old(self).misshapen < usize::MAX,
            window.frame.inside(1),
            view.inside_limit(),
            from_offset.inside(1),
            to_offset.inside(1),
        ensures
            final(self).inside_limit(),
            cached is None ==> final(self).missing == old(self).missing + 1
                && final(self).misshapen == old(self).misshapen && final(self).tiles@ == old(
                self,
            ).tiles@ && final(self).starts@ == old(self).starts@,
            cached matches Some(snapshot) ==> {
                &&& final(self).missing == old(self).missing
                &&& final(self).misshapen == old(self).misshapen + (if snapshot.suits(
                    window.frame.size,
                ) {
                    0int
                } else {
                    1int
                })
                &&& final(self).tiles@ == old(self).tiles@.push(
                    surface_tile(*window, snapshot, view.order, from_offset, to_offset, focus),
                )
                &&& final(self).starts@ == (match view.frame {
                    Some(frame) => old(self).starts@.push((window.window, frame)),
                    None => old(self).starts@,
                })
            },
    {
        let (from, to): (Rect, Rect) = surface_travel(
            window.frame,
            from_offset,
            to_offset,
            window.pinned,
        );
        match cached {
            Some(snapshot) => {
                if !snapshot.fits(window.frame.size) {
                    self.misshapen = self.misshapen + 1;
                }
                if let Some(frame) = view.frame {
                    self.starts.push((window.window, frame));
                }
                self.tiles.push(
                    OverlayTile {
                        window: window.window,
                        from,
                        to,
                        snapshot,
                        floating: window.floating,
                        server_order: view.order,
                        depth: 0,
                        companion: false,
                        focused: is_focus(focus, window.window),
                    },
                );
            },
            None => {
                self.missing = self.missing + 1;
            },
        }
    }
}

/// `seen`, on the overlay over `display`, is `frame` on the display.
pub open spec fn stands_at(seen: Rect, display: Rect, frame: Rect) -> bool {
    &&& seen.origin.x + display.origin.x == frame.origin.x
    &&& seen.origin.y + display.origin.y == frame.origin.y
    &&& seen.size.width == frame.size.width
    &&& seen.size.height == frame.size.height
}

/// A newly opened window flies from the very frame the server shows it at to the whole of its slot:
/// seen from the display, its tile begins where the window is and ends where the window will stand.
pub proof fn a_spawned_window_flies_to_its_slot(
    request: AnimationRequest,
    view: ServerView,
    travel: Option<Point>,
    cached: Option<WindowSnapshot>,
    capture: Option<WindowSnapshot>,
    budget_left: bool,
    focus: Option<WindowId>,
    display: Rect,
)
    requires
        request.inside_limit(),
        view.inside_limit(),
        display.inside(1),
    ensures
        composed(request, view, travel, cached, capture, budget_left, focus, display) matches
            Composed::Spawned { tile, from, to, standing } ==> {
            &&& tile.to.origin.x + display.origin.x == request.to.origin.x
            &&& tile.to.origin.y + display.origin.y == request.to.origin.y
            &&& tile.to.size.width == request.to.size.width
            &&& tile.to.size.height == request.to.size.height
            &&& view.frame is Some
            &&& tile.from.origin.x + display.origin.x == view.frame->0.origin.x
            &&& tile.from.origin.y + display.origin.y == view.frame->0.origin.y
            &&& tile.from.size.width == view.frame->0.size.width
            &&& tile.from.size.height == view.frame->0.size.height
            &&& from == view.frame->0
            &&& to == request.to
            &&& tile.window == request.window
            &&& tile.floating == request.floating
            &&& capture == Some(tile.snapshot)
            &&& cached is None
        },
{
}

/// A window travels from its spawn frame only where that shows on the display, has an extent, and a
/// usable capture of it was made within the pass's budget; then it is in front and focused, unless it
/// stands in its slot already.
pub proof fn a_spawned_window_comes_in_front(
    request: AnimationRequest,
    view: ServerView,
    travel: Option<Point>,
    capture: Option<WindowSnapshot>,
    budget_left: bool,
    focus: Option<WindowId>,
    display: Rect,
)
    ensures
        ({
            let outcome = composed(
                request,
                view,
                travel,
                None,
                capture,
                budget_left,
                focus,
                display,
            );
            let can_travel = view.frame is Some && !off_screen(display, view.frame->0)
                && view.frame->0.size.width > 0 && view.frame->0.size.height > 0 && budget_left
                && capture is Some && capture->0.coverage.usable();
            &&& outcome !is Drawn
            &&& outcome is Spawned ==> can_travel
            &&& outcome is Reserved ==> !can_travel
            &&& outcome matches Composed::Spawned { tile, from, to, standing } ==> {
                &&& standing <==> -100 < view.frame->0.origin.x - request.to.origin.x < 100 && -100
                    < view.frame->0.origin.y - request.to.origin.y < 100 && -100
                    < view.frame->0.size.width - request.to.size.width < 100 && -100
                    < view.frame->0.size.height - request.to.size.height < 100
                &&& !standing ==> tile.focused && tile.server_order == Some(0usize)
                &&& standing ==> tile.focused == (focus == Some(request.window))
                    && tile.server_order == view.order
                &&& tile.depth == 0 && !tile.companion
            }
        }),
{
}

/// A window with a picture is drawn from that picture. Its tile ends, seen from the display, at the
/// request's destination whenever that shows there, and begins where the server shows the window
/// whenever the window and the frame it leaves show and it is not in place already.
pub proof fn a_drawn_window_flies_to_its_destination(
    request: AnimationRequest,
    view: ServerView,
    travel: Option<Point>,
    cached: Option<WindowSnapshot>,
    capture: Option<WindowSnapshot>,
    budget_left: bool,
    focus: Option<WindowId>,
    display: Rect,
)
    requires
        request.inside_limit(),
        view.inside_limit(),
        display.inside(1),
        travel matches Some(d) ==> d.inside(2),
    ensures
        composed(request, view, travel, cached, capture, budget_left, focus, display) matches
            Composed::Drawn { tile, start, end, held } ==> {
            &&& cached == Some(tile.snapshot)
            &&& tile.window == request.window
            &&& tile.floating == request.floating
            &&& tile.server_order == view.order
            &&& tile.focused == (focus == Some(request.window))
            &&& tile.depth == 0 && !tile.companion
            &&& stands_at(tile.from, display, start)
            &&& stands_at(tile.to, display, end)
            &&& !off_screen(display, request.to) ==> {
                &&& tile.to.origin.x + display.origin.x == request.to.origin.x
                &&& tile.to.origin.y + display.origin.y == request.to.origin.y
                &&& tile.to.size.width == request.to.size.width
                &&& tile.to.size.height == request.to.size.height
            }
            &&& !off_screen(display, request.from) && view.frame is None ==> stands_at(
                tile.from,
                display,
                request.from,
            )
            &&& !off_screen(display, request.from) && (view.frame matches Some(frame)
                && frame.size.width > 0 && frame.size.height > 0 && !off_screen(display, frame)
                && !same_frame(frame, request.to)) ==> stands_at(tile.from, display, view.frame->0)
            &&& off_screen(display, request.from) ==> tile.from.size == request.to.size
            &&& off_screen(display, request.from) && travel is Some && !off_screen(
                display,
                request.to,
            ) ==> {
                &&& tile.to.origin.x - tile.from.origin.x == travel->0.x
                &&& tile.to.origin.y - tile.from.origin.y == travel->0.y
            }
            &&& off_screen(display, request.to) && !off_screen(display, start) ==> {
                &&& tile.to.size == tile.from.size
                &&& travel is Some ==> tile.to.origin.x - tile.from.origin.x == travel->0.x
                    && tile.to.origin.y - tile.from.origin.y == travel->0.y
                &&& travel is None ==> tile.to.origin.y == tile.from.origin.y
            }
            &&& held is Some <==> outgrown(tile.snapshot.coverage.covered, request.to.size)
            &&& held matches Some(hold) ==> hold.0 == request.window && hold.1 == request.to.size
        },
{
}

/// A window without a picture that cannot travel has its slot reserved: its destination on the
/// overlay, and a hold at the size it is going to have.
pub proof fn a_reserved_window_waits_in_its_slot(
    request: AnimationRequest,
    view: ServerView,
    travel: Option<Point>,
    cached: Option<WindowSnapshot>,
    capture: Option<WindowSnapshot>,
    budget_left: bool,
    focus: Option<WindowId>,
    display: Rect,
)
    requires
        request.inside_limit(),
        display.inside(1),
    ensures
        composed(request, view, travel, cached, capture, budget_left, focus, display) matches
            Composed::Reserved { entrance, hold } ==> {
            &&& cached is None
            &&& entrance.window == request.window
            &&& entrance.floating == request.floating
            &&& entrance.to.origin.x + display.origin.x == request.to.origin.x
            &&& entrance.to.origin.y + display.origin.y == request.to.origin.y
            &&& entrance.to.size.width == request.to.size.width
            &&& entrance.to.size.height == request.to.size.height
            &&& hold.0 == request.window
            &&& hold.1.width == request.to.size.width
            &&& hold.1.height == request.to.size.height
        },
{
}

/// Nothing that shows is left out: a request is given up only when its path is not worth drawing,
/// whatever pictures there are, and one with a picture is otherwise drawn.
pub proof fn only_a_path_off_screen_is_given_up(
    request: AnimationRequest,
    view: ServerView,
    travel: Option<Point>,
    cached: Option<WindowSnapshot>,
    capture: Option<WindowSnapshot>,
    budget_left: bool,
    focus: Option<WindowId>,
    display: Rect,
)
    ensures
        ({
            let start = start_of(view.stands(), request.from, request.to, display, travel);
            let end = end_of(start, request.to, display, travel);
            let outcome = composed(
                request,
                view,
                travel,
                cached,
                capture,
                budget_left,
                focus,
                display,
            );
            &&& outcome is OffScreen <==> !worthwhile(start, end, display)
            &&& outcome !is OffScreen && cached is Some ==> outcome is Drawn
            &&& outcome !is OffScreen && cached is None ==> outcome is Spawned || outcome is Reserved
        }),
        view.frame matches Some(frame) ==> (view.stands() == Some(frame) <==> frame.size.width > 0
            && frame.size.height > 0),
        view.frame is None ==> view.stands() is None,
{
}

/// The travel a window borrows is another request's: one of the strip, on screen at both ends. A
/// floating window borrows none.
pub proof fn a_window_borrows_anothers_travel(
    requests: Seq<AnimationRequest>,
    index: int,
    display: Rect,
)
    requires
        requests_inside(requests),
        0 <= index < requests.len(),
    ensures
        requests[index].floating ==> travel_at(requests, index, display) is None,
        travel_at(requests, index, display) matches Some(d) ==> exists|j: int|
            {
                &&& 0 <= j < requests.len() && j != index
                &&& !(#[trigger] requests[j]).floating
                &&& !off_screen(display, requests[j].from) && !off_screen(display, requests[j].to)
                &&& d.x == requests[j].to.origin.x - requests[j].from.origin.x
                &&& d.y == requests[j].to.origin.y - requests[j].from.origin.y
                &&& d.x >= 500 || d.x <= -500 || d.y >= 500 || d.y <= -500
            },
{
    let others = others_of(requests, index);
    if let Some(d) = travel_at(requests, index, display) {
        let subject = if off_screen(display, requests[index].to) {
            requests[index].from
        } else {
            requests[index].to
        };
        let i = choose|i: int| crate::travel::nearest_lender(subject, others, display, i);
        assert(crate::travel::lends(others[i], display));
        let j = if i < index {
            i
        } else {
            i + 1
        };
        assert(requests.remove(index)[i] == requests[j]);
        assert(requests[j].inside_limit());
        assert(!requests[j].floating);
    }
}

/// Wherever another window of the strip has a travel to lend, a window of the strip borrows one.
pub proof fn a_window_of_a_moving_strip_borrows(
    requests: Seq<AnimationRequest>,
    index: int,
    other: int,
    display: Rect,
)
    requires
        requests_inside(requests),
        0 <= index < requests.len(),
        0 <= other < requests.len(),
        other != index,
        !requests[index].floating,
        !requests[other].floating,
        !off_screen(display, requests[other].from),
        !off_screen(display, requests[other].to),
        requests[other].to.origin.x - requests[other].from.origin.x >= 500
            || requests[other].from.origin.x - requests[other].to.origin.x >= 500
            || requests[other].to.origin.y - requests[other].from.origin.y >= 500
            || requests[other].from.origin.y - requests[other].to.origin.y >= 500,
    ensures
        travel_at(requests, index, display) is Some,
{
    let others = others_of(requests, index);
    let k = if other < index {
        other
    } else {
        other - 1
    };
    assert(requests.remove(index)[k] == requests[other]);
    assert forall|i: int| 0 <= i < others.len() implies (#[trigger] others[i]).0.inside(1)
        && others[i].1.inside(1) by {
        let j = if i < index {
            i
        } else {
            i + 1
        };
        assert(requests.remove(index)[i] == requests[j]);
        assert(requests[j].inside_limit());
    }
    let subject = if off_screen(display, requests[index].to) {
        requests[index].from
    } else {
        requests[index].to
    };
    crate::travel::the_travel_lent_is_the_nearest_lenders(subject, others, display, k);
}

/// A pass places exactly the windows that move, each at its request's destination, in order.
pub proof fn a_moving_window_is_placed_at_its_destination(
    requests: Seq<AnimationRequest>,
    more: Seq<AnimationRequest>,
    k: int,
    i: int,
)
    ensures
        moving_frames(requests + more) == moving_frames(requests) + moving_frames(more),
        0 <= k < moving_frames(requests).len() ==> exists|j: int|
            {
                &&& 0 <= j < requests.len()
                &&& (#[trigger] requests[j]).window == moving_frames(requests)[k].0
                &&& requests[j].to == moving_frames(requests)[k].1
                &&& moves(requests[j].from, requests[j].to)
            },
        0 <= i < requests.len() && moves(requests[i].from, requests[i].to) ==> moving_frames(
            requests,
        ).contains((requests[i].window, requests[i].to)),
    decreases requests.len() + more.len(),
{
    if more.len() == 0 {
        assert(requests + more =~= requests);
        assert(moving_frames(requests) + moving_frames(more) =~= moving_frames(requests));
    } else {
        a_moving_window_is_placed_at_its_destination(requests, more.drop_last(), k, i);
        assert((requests + more).drop_last() =~= requests + more.drop_last());
        assert((requests + more).last() == more.last());
        assert(moving_frames(requests + more) =~= moving_frames(requests) + moving_frames(more));
    }
    if requests.len() > 0 {
        let rest = requests.drop_last();
        let none = Seq::<AnimationRequest>::empty();
        if more.len() > 0 || rest.len() < requests.len() {
            a_moving_window_is_placed_at_its_destination(rest, none, k, i);
        }
        let before = moving_frames(rest);
        let all = moving_frames(requests);
        if 0 <= k < before.len() {
            let j = choose|j: int|
                {
                    &&& 0 <= j < rest.len()
                    &&& (#[trigger] rest[j]).window == before[k].0
                    &&& rest[j].to == before[k].1
                    &&& moves(rest[j].from, rest[j].to)
                };
            assert(requests[j] == rest[j]);
            assert(all[k] == before[k]);
        } else if 0 <= k < all.len() {
            assert(requests[requests.len() - 1].window == all[k].0);
        }
        if 0 <= i < requests.len() && moves(requests[i].from, requests[i].to) {
            let entry = (requests[i].window, requests[i].to);
            if i < rest.len() {
                assert(rest[i] == requests[i]);
                let at = choose|at: int| 0 <= at < before.len() && before[at] == entry;
                assert(all[at] == entry);
            } else {
                assert(all[before.len() as int] == entry);
            }
        }
    }
}

/// What a request adds to a composition is its own: the windows named are the request's, the places
/// are those of the tile or the request, and nothing already there is lost.
pub proof fn a_composition_gathers_what_was_composed(
    before: Composition,
    after: Composition,
    request: AnimationRequest,
    cached: Option<WindowSnapshot>,
    outcome: Composed,
)
    requires
        takes_in(before, after, request, cached, outcome),
    ensures
        after.tiles@.take(before.tiles@.len() as int) == before.tiles@,
        after.awaiting@.take(before.awaiting@.len() as int) == before.awaiting@,
        after.entrances@.take(before.entrances@.len() as int) == before.entrances@,
        after.needs_capture@.take(before.needs_capture@.len() as int) == before.needs_capture@,
        after.tiles@.len() == before.tiles@.len() + (if outcome is Drawn || outcome is Spawned {
            1int
        } else {
            0int
        }),
        after.offscreen - before.offscreen == (if outcome is OffScreen {
            1int
        } else {
            0int
        }),
        after.skipped - before.skipped == (if outcome is Reserved {
            1int
        } else {
            0int
        }),
        cached is None && outcome !is OffScreen ==> after.needs_capture@.last() == (SnapshotTarget {
            window: request.window,
            server_id: request.server_id,
            size: request.from.size,
        }),
        cached is Some || outcome is OffScreen ==> after.needs_capture@ == before.needs_capture@,
        outcome matches Composed::Drawn { tile, start, end, held } ==> {
            &&& after.tiles@.last() == tile
            &&& after.starts@.last() == (request.window, start)
            &&& after.resolved@.last() == (request.window, start, end, request.floating)
            &&& held matches Some(hold) ==> after.awaiting@.last() == hold
            &&& held is None ==> after.awaiting@ == before.awaiting@
        },
        outcome matches Composed::Spawned { tile, from, to, standing } ==> {
            &&& after.tiles@.last() == tile
            &&& after.awaiting@ == before.awaiting@
            &&& standing ==> after.starts@.last() == (request.window, from) && after.resolved@.last()
                == (request.window, from, to, request.floating) && after.chase@ == before.chase@
            &&& !standing ==> {
                &&& after.spawn_entrances@.last() == (request.window, tile.from, tile.to)
                &&& after.chase@.last() == (request.window, to.size)
                &&& after.entrance_frames@.last() == (request.window, to)
                &&& after.starts@ == before.starts@
                &&& after.resolved@ == before.resolved@
            }
        },
        outcome matches Composed::Reserved { entrance, hold } ==> after.entrances@.last()
            == entrance && after.awaiting@.last() == hold,
{
    assert(after.tiles@.take(before.tiles@.len() as int) =~= before.tiles@);
    assert(after.awaiting@.take(before.awaiting@.len() as int) =~= before.awaiting@);
    assert(after.entrances@.take(before.entrances@.len() as int) =~= before.entrances@);
    assert(after.needs_capture@.take(before.needs_capture@.len() as int) =~= before.needs_capture@);
    if outcome !is OffScreen && cached is Some {
        assert(after.needs_capture@ =~= before.needs_capture@);
    }
    if let Composed::Drawn { tile, start, end, held } = outcome {
        if held is None {
            assert(after.awaiting@ =~= before.awaiting@);
        }
    }
}

/// A newly opened window enters as it was composed: the ends noted for its entrance are, seen from
/// the display, the frame the server shows and the whole slot, and it is chased and placed at that
/// slot.
pub proof fn a_spawn_entrance_ends_in_the_slot(
    before: Composition,
    after: Composition,
    request: AnimationRequest,
    view: ServerView,
    travel: Option<Point>,
    cached: Option<WindowSnapshot>,
    capture: Option<WindowSnapshot>,
    budget_left: bool,
    focus: Option<WindowId>,
    display: Rect,
)
    requires
        request.inside_limit(),
        view.inside_limit(),
        display.inside(1),
        takes_in(
            before,
            after,
            request,
            cached,
            composed(request, view, travel, cached, capture, budget_left, focus, display),
        ),
        after.spawn_entrances@.len() > before.spawn_entrances@.len(),
    ensures
        ({
            let entry = after.spawn_entrances@.last();
            &&& entry.0 == request.window
            &&& view.frame is Some && stands_at(entry.1, display, view.frame->0)
            &&& stands_at(entry.2, display, request.to)
            &&& after.chase@.last() == (request.window, request.to.size)
            &&& after.entrance_frames@.last() == (request.window, request.to)
        }),
{
}

/// An anchor is a listed window's real frame with its own tile's ends and depth, in the order listed;
/// every listed window with a tile has one.
pub proof fn an_anchor_is_a_windows_own_tile(
    starts: Seq<(WindowId, Rect)>,
    tiles: Seq<OverlayTile>,
    k: int,
    i: int,
)
    ensures
        0 <= k < anchors_for(starts, tiles).len() ==> exists|j: int, t: int|
            {
                &&& 0 <= j < starts.len() && 0 <= t < tiles.len()
                &&& (#[trigger] tiles[t]).window == (#[trigger] starts[j]).0
                &&& anchors_for(starts, tiles)[k].actual == starts[j].1
                &&& anchors_for(starts, tiles)[k].from == tiles[t].from
                &&& anchors_for(starts, tiles)[k].to == tiles[t].to
                &&& anchors_for(starts, tiles)[k].depth == tiles[t].depth
            },
        0 <= i < starts.len() && crate::keyed::listed(tiles, starts[i].0) ==> exists|j: int|
            0 <= j < anchors_for(starts, tiles).len() && (#[trigger] anchors_for(starts, tiles)[j]).actual
                == starts[i].1,
        anchors_for(starts, tiles).len() <= starts.len(),
    decreases starts.len(),
{
    if starts.len() > 0 {
        let rest = starts.drop_last();
        an_anchor_is_a_windows_own_tile(rest, tiles, k, i);
        let before = anchors_for(rest, tiles);
        let all = anchors_for(starts, tiles);
        let last = starts.last();
        crate::keyed::first_at_finds(tiles, last.0);
        if 0 <= k < before.len() {
            let (j, t) = choose|j: int, t: int|
                {
                    &&& 0 <= j < rest.len() && 0 <= t < tiles.len()
                    &&& (#[trigger] tiles[t]).window == (#[trigger] rest[j]).0
                    &&& before[k].actual == rest[j].1
                    &&& before[k].from == tiles[t].from
                    &&& before[k].to == tiles[t].to
                    &&& before[k].depth == tiles[t].depth
                };
            assert(starts[j] == rest[j]);
            assert(all[k] == before[k]);
            assert(tiles[t].window == starts[j].0);
        } else if 0 <= k < all.len() {
            let t = crate::keyed::first_at(tiles, last.0);
            assert(tiles[t].window == starts[starts.len() - 1].0);
        }
        if 0 <= i < rest.len() && crate::keyed::listed(tiles, starts[i].0) {
            assert(rest[i] == starts[i]);
            let j = choose|j: int|
                0 <= j < before.len() && (#[trigger] before[j]).actual == rest[i].1;
            assert(all[j] == before[j]);
        } else if i == rest.len() && crate::keyed::listed(tiles, starts[i].0) {
            assert(all[before.len() as int].actual == starts[i].1);
        }
    }
}

/// The candidates for borders are the visible windows that are not managed, each kept as listed and
/// in its order.
pub proof fn a_border_candidate_is_unmanaged(
    visible: Seq<(WindowServerId, Rect)>,
    more: Seq<(WindowServerId, Rect)>,
    managed_ids: Seq<u32>,
    entry: (WindowServerId, Rect),
)
    ensures
        unmanaged(visible, managed_ids).contains(entry) <==> visible.contains(entry)
            && !managed_ids.contains(entry.0.0),
        unmanaged(visible + more, managed_ids) == unmanaged(visible, managed_ids) + unmanaged(
            more,
            managed_ids,
        ),
    decreases visible.len() + more.len(),
{
    if more.len() == 0 {
        assert(visible + more =~= visible);
        assert(unmanaged(visible, managed_ids) + unmanaged(more, managed_ids) =~= unmanaged(
            visible,
            managed_ids,
        ));
    } else {
        a_border_candidate_is_unmanaged(visible, more.drop_last(), managed_ids, entry);
        assert((visible + more).drop_last() =~= visible + more.drop_last());
        assert((visible + more).last() == more.last());
        assert(unmanaged(visible + more, managed_ids) =~= unmanaged(visible, managed_ids)
            + unmanaged(more, managed_ids));
    }
    if visible.len() > 0 {
        let rest = visible.drop_last();
        let last = visible.last();
        a_border_candidate_is_unmanaged(rest, Seq::empty(), managed_ids, entry);
        let before = unmanaged(rest, managed_ids);
        assert(visible == rest.push(last));
        assert(visible.contains(entry) <==> rest.contains(entry) || entry == last) by {
            if rest.contains(entry) {
                let i = choose|i: int| 0 <= i < rest.len() && rest[i] == entry;
                assert(visible[i] == entry);
            }
            assert(visible[visible.len() - 1] == last);
        }
        assert(before.push(last).contains(entry) <==> before.contains(entry) || entry == last) by {
            if before.contains(entry) {
                let i = choose|i: int| 0 <= i < before.len() && before[i] == entry;
                assert(before.push(last)[i] == entry);
            }
            assert(before.push(last)[before.len() as int] == last);
        }
    }
}

/// A border keeps its place around its window: as far from the tile's corner as the border is from
/// the real window's, at both ends, at its own size.
pub proof fn a_border_keeps_its_place_around_its_window(
    window: WindowId,
    anchor: Anchor,
    frame: Rect,
    snapshot: WindowSnapshot,
)
    requires
        anchor.actual.inside(3),
        anchor.from.inside(9),
        anchor.to.inside(9),
        frame.inside(1),
    ensures
        ({
            let tile = border_tile(window, anchor, frame, snapshot);
            &&& tile.from.origin.x - anchor.from.origin.x == frame.origin.x - anchor.actual.origin.x
            &&& tile.from.origin.y - anchor.from.origin.y == frame.origin.y - anchor.actual.origin.y
            &&& tile.to.origin.x - anchor.to.origin.x == frame.origin.x - anchor.actual.origin.x
            &&& tile.to.origin.y - anchor.to.origin.y == frame.origin.y - anchor.actual.origin.y
            &&& tile.from.size == frame.size && tile.to.size == frame.size
            &&& tile.window == window && tile.snapshot == snapshot && tile.companion
            &&& tile.depth == anchor.depth && !tile.focused && !tile.floating
        }),
{
}

/// The tile is that of the window tracing the anchor, drawn from that window's own picture and kept in
/// its place around the anchor.
pub open spec fn is_border_of(
    anchor: Anchor,
    candidates: Seq<(WindowServerId, Rect)>,
    pictures: Seq<(WindowId, WindowSnapshot)>,
    display: Rect,
    tile: OverlayTile,
) -> bool {
    match companion(anchor.actual, candidates, display) {
        Some((server_id, frame)) => {
            &&& tile.window == synthetic(server_id)
            &&& lookup(pictures, synthetic(server_id)) == Some((tile.window, tile.snapshot))
            &&& tile == border_tile(tile.window, anchor, frame, tile.snapshot)
        },
        None => false,
    }
}

/// Every border found traces one of the anchors, and is kept warm at its own size under its own
/// number; those with a picture are drawn from it and the others are captured.
pub proof fn a_border_found_traces_an_anchor(
    anchors: Seq<Anchor>,
    candidates: Seq<(WindowServerId, Rect)>,
    pictures: Seq<(WindowId, WindowSnapshot)>,
    display: Rect,
    k: int,
)
    ensures
        ({
            let f = found(anchors, candidates, pictures, display);
            &&& f.targets.len() == f.claimed.len()
            &&& 0 <= k < f.targets.len() ==> f.claimed[k] == f.targets[k].server_id.0
                && f.targets[k].window == synthetic(f.targets[k].server_id) && exists|i: int|
                0 <= i < anchors.len() && companion((#[trigger] anchors[i]).actual, candidates, display)
                    is Some && (companion(anchors[i].actual, candidates, display)->0).0
                    == f.targets[k].server_id && (companion(anchors[i].actual, candidates, display)->0).1.size
                    == f.targets[k].size
            &&& 0 <= k < f.missing.len() ==> f.targets.contains(f.missing[k])
                && !crate::keyed::listed(pictures, f.missing[k].window)
            &&& 0 <= k < f.tiles.len() ==> exists|i: int|
                0 <= i < anchors.len() && is_border_of(#[trigger] anchors[i], candidates, pictures, display, f.tiles[k])
        }),
    decreases anchors.len(),
{
    if anchors.len() > 0 {
        let rest = anchors.drop_last();
        let b = found(rest, candidates, pictures, display);
        let f = found(anchors, candidates, pictures, display);
        a_border_found_traces_an_anchor(rest, candidates, pictures, display, k);
        let n = anchors.len() - 1;
        if 0 <= k < f.targets.len() {
            if k < b.targets.len() {
                assert(f.targets[k] == b.targets[k]);
                let i = choose|i: int|
                    0 <= i < rest.len() && companion((#[trigger] rest[i]).actual, candidates, display)
                    is Some && (companion(rest[i].actual, candidates, display)->0).0
                    == b.targets[k].server_id && (companion(rest[i].actual, candidates, display)->0).1.size
                    == b.targets[k].size;
                assert(anchors[i] == rest[i]);
            } else {
                assert(companion(anchors[n].actual, candidates, display) is Some);
            }
        }
        if 0 <= k < f.missing.len() {
            if k < b.missing.len() {
                assert(f.missing[k] == b.missing[k]);
                let t = choose|t: int| 0 <= t < b.targets.len() && b.targets[t] == b.missing[k];
                assert(f.targets[t] == b.missing[k]);
            } else {
                assert(f.targets[b.targets.len() as int] == f.missing[k]);
            }
        }
        if 0 <= k < f.tiles.len() {
            if k < b.tiles.len() {
                assert(f.tiles[k] == b.tiles[k]);
                let i = choose|i: int|
                    0 <= i < rest.len() && is_border_of(#[trigger] rest[i], candidates, pictures, display, b.tiles[k]);
                assert(anchors[i] == rest[i]);
            } else {
                crate::keyed::first_at_finds(pictures, f.tiles[k].window);
                assert(is_border_of(anchors[n], candidates, pictures, display, f.tiles[k]));
            }
        }
    }
}

/// No anchor's border is passed over: whatever traces an anchor is claimed, by it or by one before.
pub proof fn every_traced_anchor_has_its_border(
    anchors: Seq<Anchor>,
    candidates: Seq<(WindowServerId, Rect)>,
    pictures: Seq<(WindowId, WindowSnapshot)>,
    display: Rect,
    i: int,
)
    requires
        0 <= i < anchors.len(),
        companion(anchors[i].actual, candidates, display) is Some,
    ensures
        found(anchors, candidates, pictures, display).claimed.contains(
            (companion(anchors[i].actual, candidates, display)->0).0.0,
        ),
    decreases anchors.len(),
{
    let rest = anchors.drop_last();
    let b = found(rest, candidates, pictures, display).claimed;
    let f = found(anchors, candidates, pictures, display).claimed;
    let id = (companion(anchors[i].actual, candidates, display)->0).0.0;
    if i < rest.len() {
        assert(rest[i] == anchors[i]);
        every_traced_anchor_has_its_border(rest, candidates, pictures, display, i);
        let k = choose|k: int| 0 <= k < b.len() && b[k] == id;
        assert(f[k] == id);
    } else if !b.contains(id) {
        assert(f[b.len() as int] == id);
    }
}

/// A window of a strip movement is drawn at its own size, from where the viewport shows it first to
/// where it shows it last; a pinned one stands still.
pub proof fn a_surface_tile_moves_with_the_viewport(
    window: SurfaceWindow,
    snapshot: WindowSnapshot,
    order: Option<usize>,
    from_offset: Point,
    to_offset: Point,
    focus: Option<WindowId>,
)
    requires
        window.frame.inside(1),
        from_offset.inside(1),
        to_offset.inside(1),
    ensures
        ({
            let tile = surface_tile(window, snapshot, order, from_offset, to_offset, focus);
            &&& tile.window == window.window && tile.snapshot == snapshot
            &&& tile.floating == window.floating && tile.server_order == order
            &&& tile.focused == (focus == Some(window.window)) && !tile.companion && tile.depth == 0
            &&& tile.from.size == window.frame.size && tile.to.size == window.frame.size
            &&& window.pinned ==> tile.from == window.frame && tile.to == window.frame
            &&& !window.pinned ==> {
                &&& tile.from.origin.x + from_offset.x == window.frame.origin.x
                &&& tile.from.origin.y + from_offset.y == window.frame.origin.y
                &&& tile.to.origin.x + to_offset.x == window.frame.origin.x
                &&& tile.to.origin.y + to_offset.y == window.frame.origin.y
            }
        }),
{
}

/// The travel borrowed is the nearest lender's, middle to middle, measured from the slot a window
/// arrives at, or from the one it leaves where it arrives at a park.
pub proof fn a_window_borrows_from_the_nearest(
    requests: Seq<AnimationRequest>,
    index: int,
    other: int,
    display: Rect,
)
    requires
        requests_inside(requests),
        0 <= index < requests.len(),
        0 <= other < requests.len(),
        other != index,
        !requests[index].floating,
        !requests[other].floating,
        !off_screen(display, requests[other].from),
        !off_screen(display, requests[other].to),
        requests[other].to.origin.x - requests[other].from.origin.x >= 500
            || requests[other].from.origin.x - requests[other].to.origin.x >= 500
            || requests[other].to.origin.y - requests[other].from.origin.y >= 500
            || requests[other].from.origin.y - requests[other].to.origin.y >= 500,
    ensures
        ({
            let slot = if off_screen(display, requests[index].to) {
                requests[index].from
            } else {
                requests[index].to
            };
            let lent = travel_at(requests, index, display);
            lent is Some && exists|j: int|
                {
                    &&& 0 <= j < requests.len() && j != index
                    &&& lent->0.x == (#[trigger] requests[j]).to.origin.x - requests[j].from.origin.x
                    &&& lent->0.y == requests[j].to.origin.y - requests[j].from.origin.y
                    &&& crate::geometry::distance(
                        (2 * requests[j].from.origin.x + requests[j].from.size.width) - (2
                            * slot.origin.x + slot.size.width),
                    ) <= crate::geometry::distance(
                        (2 * requests[other].from.origin.x + requests[other].from.size.width) - (2
                            * slot.origin.x + slot.size.width),
                    )
                }
        }),
{
    let others = others_of(requests, index);
    let k = if other < index {
        other
    } else {
        other - 1
    };
    assert(requests.remove(index)[k] == requests[other]);
    assert forall|i: int| 0 <= i < others.len() implies (#[trigger] others[i]).0.inside(1)
        && others[i].1.inside(1) by {
        let j = if i < index {
            i
        } else {
            i + 1
        };
        assert(requests.remove(index)[i] == requests[j]);
        assert(requests[j].inside_limit());
    }
    let slot = if off_screen(display, requests[index].to) {
        requests[index].from
    } else {
        requests[index].to
    };
    crate::travel::the_travel_lent_is_the_nearest_lenders(slot, others, display, k);
    let lent = travel_at(requests, index, display);
    let i = choose|i: int|
        {
            &&& 0 <= i < others.len()
            &&& crate::travel::lends(#[trigger] others[i], display)
            &&& lent->0.x == others[i].1.origin.x - others[i].0.origin.x
            &&& lent->0.y == others[i].1.origin.y - others[i].0.origin.y
            &&& crate::geometry::distance(
                (2 * others[i].0.origin.x + others[i].0.size.width) - (2 * slot.origin.x
                    + slot.size.width),
            ) <= crate::geometry::distance(
                (2 * others[k].0.origin.x + others[k].0.size.width) - (2 * slot.origin.x
                    + slot.size.width),
            )
        };
    let j = if i < index {
        i
    } else {
        i + 1
    };
    assert(requests.remove(index)[i] == requests[j]);
    assert(requests[j].to == others[i].1);
}

/// A strip movement takes a window with a picture in at the place the viewport gives it, and notes
/// where it really is if the server says; a picture of another shape is counted and drawn all the
/// same, and a window without one is counted and not drawn.
pub proof fn a_strip_movement_draws_what_has_a_picture(
    pass: &mut SurfaceComposition,
    window: SurfaceWindow,
    view: ServerView,
    cached: Option<WindowSnapshot>,
    from_offset: Point,
    to_offset: Point,
    focus: Option<WindowId>,
    done: (),
)
    requires
        call_ensures(
            SurfaceComposition::take,
            (pass, &window, &view, cached, from_offset, to_offset, focus),
            done,
        ),
        old(pass).inside_limit(),
        old(pass).missing < usize::MAX,
        old(pass).misshapen < usize::MAX,
        window.frame.inside(1),
        view.inside_limit(),
        from_offset.inside(1),
        to_offset.inside(1),
    ensures
        cached is None ==> final(pass).missing == old(pass).missing + 1
            && final(pass).tiles@ == old(pass).tiles@ && final(pass).starts@ == old(pass).starts@
            && final(pass).misshapen == old(pass).misshapen,
        cached matches Some(picture) ==> {
            let tile = final(pass).tiles@.last();
            &&& final(pass).missing == old(pass).missing
            &&& final(pass).tiles@.len() == old(pass).tiles@.len() + 1
            &&& final(pass).tiles@.drop_last() == old(pass).tiles@
            &&& tile.window == window.window && tile.snapshot == picture
            &&& tile.from.size == window.frame.size && tile.to.size == window.frame.size
            &&& tile.server_order == view.order
            &&& window.pinned ==> tile.from == window.frame && tile.to == window.frame
            &&& !window.pinned ==> tile.from.origin.x + from_offset.x == window.frame.origin.x
                && tile.to.origin.x + to_offset.x == window.frame.origin.x
            &&& view.frame matches Some(frame) ==> final(pass).starts@ == old(pass).starts@.push(
                (window.window, frame),
            )
            &&& view.frame is None ==> final(pass).starts@ == old(pass).starts@
            &&& picture.suits(window.frame.size) ==> final(pass).misshapen == old(pass).misshapen
            &&& !picture.suits(window.frame.size) ==> final(pass).misshapen == old(pass).misshapen
                + 1
        },
{
    if let Some(picture) = cached {
        a_surface_tile_moves_with_the_viewport(
            window,
            picture,
            view.order,
            from_offset,
            to_offset,
            focus,
        );
        assert(final(pass).tiles@.drop_last() =~= old(pass).tiles@);
    }
}

/// Every capture of a spawn frame is paid for once, and four are paid for at the most.
pub proof fn a_capture_is_paid_for(
    pass: &mut Composition,
    request: AnimationRequest,
    cached: Option<WindowSnapshot>,
    captured: bool,
    outcome: Composed,
    done: (),
    left: bool,
)
    requires
        call_ensures(Composition::take, (pass, &request, cached, captured, outcome), done),
        old(pass).inside_limit(),
        old(pass).offscreen < usize::MAX,
        old(pass).skipped < usize::MAX,
        old(pass).sync_captures < usize::MAX,
        outcome matches Composed::Drawn { tile, start, end, held } ==> start.inside(3)
            && tile.from.inside(9) && tile.to.inside(9),
        outcome matches Composed::Spawned { tile, from, to, standing } ==> from.inside(3)
            && tile.from.inside(9) && tile.to.inside(9),
        call_ensures(Composition::budget_left, (&*final(pass),), left),
    ensures
        captured ==> final(pass).sync_captures == old(pass).sync_captures + 1,
        !captured ==> final(pass).sync_captures == old(pass).sync_captures,
        left <==> final(pass).sync_captures < 4,
{
}

/// An anchor made of a window has that window's real frame and its tile's two ends.
pub proof fn anchors_are_made_of_tiles(
    starts: Vec<(WindowId, Rect)>,
    tiles: Vec<OverlayTile>,
    anchors: Vec<Anchor>,
    k: int,
)
    requires
        forall|i: int| 0 <= i < starts@.len() ==> (#[trigger] starts@[i]).1.inside(3),
        forall|i: int|
            0 <= i < tiles@.len() ==> (#[trigger] tiles@[i]).from.inside(9)
                && tiles@[i].to.inside(9),
        call_ensures(anchors_of, (&starts, &tiles), anchors),
        0 <= k < anchors@.len(),
    ensures
        exists|j: int, t: int|
            {
                &&& 0 <= j < starts@.len() && 0 <= t < tiles@.len()
                &&& (#[trigger] tiles@[t]).window == (#[trigger] starts@[j]).0
                &&& anchors@[k].actual == starts@[j].1
                &&& anchors@[k].from == tiles@[t].from
                &&& anchors@[k].to == tiles@[t].to
                &&& anchors@[k].depth == tiles@[t].depth
            },
{
    an_anchor_is_a_windows_own_tile(starts@, tiles@, k, 0);
}

/// What is composed of a request ends, seen from the display, where the request says: a newly opened
/// window in its whole slot, from the frame the server shows it at, and any other at its destination
/// wherever that shows.
pub proof fn a_composed_tile_ends_where_the_request_says(
    request: AnimationRequest,
    view: ServerView,
    travel: Option<Point>,
    cached: Option<WindowSnapshot>,
    capture: Option<WindowSnapshot>,
    budget_left: bool,
    focus: Option<WindowId>,
    display: Rect,
    outcome: Composed,
)
    requires
        request.inside_limit(),
        view.inside_limit(),
        display.inside(1),
        travel matches Some(d) ==> d.inside(2),
        call_ensures(
            compose_request,
            (&request, &view, travel, cached, capture, budget_left, focus, display),
            outcome,
        ),
    ensures
        outcome matches Composed::Spawned { tile, from, to, standing } ==> {
            &&& view.frame is Some && stands_at(tile.from, display, view.frame->0)
            &&& stands_at(tile.to, display, request.to)
            &&& from == view.frame->0 && to == request.to
        },
        outcome matches Composed::Drawn { tile, start, end, held } ==> !off_screen(
            display,
            request.to,
        ) ==> stands_at(tile.to, display, request.to),
        outcome matches Composed::Reserved { entrance, hold } ==> stands_at(
            entrance.to,
            display,
            request.to,
        ) && hold == (request.window, request.to.size),
{
    a_spawned_window_flies_to_its_slot(
        request,
        view,
        travel,
        cached,
        capture,
        budget_left,
        focus,
        display,
    );
    a_drawn_window_flies_to_its_destination(
        request,
        view,
        travel,
        cached,
        capture,
        budget_left,
        focus,
        display,
    );
}

} // verus!
