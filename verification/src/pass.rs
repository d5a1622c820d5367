//! One layout pass sorted into what moves, what stays, and what the overlay has to know. The
//! application gathers a [`PassWindow`] per window from its stores and applies the plan; nothing
//! here reads a store or sends a request.
use vstd::prelude::*;

use crate::flight::compose::AnimationRequest;
use crate::flight::decision::SnapshotTarget;
use crate::geometry::{rounded, same_frame, Point, Rect, Round, SameAs, Size};
use crate::geometry::IsWithin;
use crate::ids::{WindowId, WindowServerId};

verus! {

/// A window as the layout pass sees it.
#[derive(Clone, Copy, PartialEq, Eq, Structural, Debug)]
pub struct PassWindow {
    pub window: WindowId,
    pub server_id: Option<WindowServerId>,
    /// Where the window is, as last confirmed.
    pub current: Rect,
    /// Where the layout puts it. Rounded by the plan.
    pub target: Rect,
    /// A frame already on its way from an earlier pass.
    pub pending: Option<Rect>,
    pub in_active_workspace: bool,
    pub floating: bool,
    /// Whether the owning app can still be told. A dead app's window still counts as changed.
    pub app_alive: bool,
}

/// One window this pass moves.
#[derive(Clone, Copy, PartialEq, Eq, Structural, Debug)]
pub struct Move {
    pub window: WindowId,
    pub server_id: Option<WindowServerId>,
    pub from: Rect,
    pub to: Rect,
    pub in_active_workspace: bool,
    pub floating: bool,
}

impl Move {
    pub fn size_unchanged(&self) -> (unchanged: bool)
        ensures
            unchanged == self.from.size.near(100, self.to.size),
    {
        self.from.size.same_as(self.to.size)
    }
}

/// A pass, sorted.
#[derive(Debug)]
pub struct PassPlan {
    /// In layout order. Visible moves fly; hidden ones are placed directly.
    pub moves: Vec<Move>,
    /// Windows on the active workspace the pass leaves where they are, `from == to`. The overlay is
    /// opaque and covers the display, so anything it omits vanishes for the length of the flight.
    pub unmoved: Vec<AnimationRequest>,
    /// Every moving window with a server id, visible or not: the ones that slide in on a later
    /// switch are exactly the ones sitting off-strip now, and only capturable ahead of time.
    pub warm: Vec<SnapshotTarget>,
    /// Whether any window's frame changes, counting windows whose app is gone.
    pub any_frame_changed: bool,
}

/// A frame with all four edges snapped to whole points.
pub open spec fn snapped(frame: Rect) -> Rect {
    Rect {
        origin: Point { x: rounded(frame.left()) as i64, y: rounded(frame.top()) as i64 },
        size: Size {
            width: (rounded(frame.right()) - rounded(frame.left())) as i64,
            height: (rounded(frame.bottom()) - rounded(frame.top())) as i64,
        },
    }
}

impl PassWindow {
    /// Where the pass puts the window.
    pub open spec fn to(self) -> Rect {
        snapped(self.target)
    }

    /// The pass leaves the window where it is: it is there already, or on its way there.
    pub open spec fn stays(self) -> bool {
        same_frame(self.to(), self.current) || (self.pending matches Some(pending) && same_frame(
            pending,
            self.to(),
        ))
    }

    /// The window's move.
    pub open spec fn to_move(self) -> Move {
        Move {
            window: self.window,
            server_id: self.server_id,
            from: self.current,
            to: self.to(),
            in_active_workspace: self.in_active_workspace,
            floating: self.floating,
        }
    }
}

/// The moves of a pass: every window that does not stay and whose app can be told.
pub open spec fn moves_of(windows: Seq<PassWindow>) -> Seq<Move>
    decreases windows.len(),
{
    if windows.len() == 0 {
        Seq::empty()
    } else {
        let before = moves_of(windows.drop_last());
        let last = windows.last();
        if !last.stays() && last.app_alive {
            before.push(last.to_move())
        } else {
            before
        }
    }
}

/// The pictures a pass warms: of every move that can be captured.
pub open spec fn warmed(moves: Seq<Move>) -> Seq<SnapshotTarget>
    decreases moves.len(),
{
    if moves.len() == 0 {
        Seq::empty()
    } else {
        let before = warmed(moves.drop_last());
        let last = moves.last();
        match last.server_id {
            Some(server_id) => before.push(
                SnapshotTarget { window: last.window, server_id, size: last.to.size },
            ),
            None => before,
        }
    }
}

/// The windows a pass leaves alone and the overlay still has to draw.
pub open spec fn standing(windows: Seq<PassWindow>) -> Seq<AnimationRequest>
    decreases windows.len(),
{
    if windows.len() == 0 {
        Seq::empty()
    } else {
        let before = standing(windows.drop_last());
        let last = windows.last();
        match last.server_id {
            Some(server_id) => if last.stays() && last.in_active_workspace {
                before.push(
                    AnimationRequest {
                        window: last.window,
                        server_id,
                        from: last.current,
                        to: last.current,
                        floating: last.floating,
                    },
                )
            } else {
                before
            },
            None => before,
        }
    }
}

/// What the overlay flies of these moves.
pub open spec fn flown(moves: Seq<Move>) -> Seq<AnimationRequest>
    decreases moves.len(),
{
    if moves.len() == 0 {
        Seq::empty()
    } else {
        let before = flown(moves.drop_last());
        let last = moves.last();
        match last.server_id {
            Some(server_id) => if last.in_active_workspace {
                before.push(
                    AnimationRequest {
                        window: last.window,
                        server_id,
                        from: last.from,
                        to: last.to,
                        floating: last.floating,
                    },
                )
            } else {
                before
            },
            None => before,
        }
    }
}

/// The request flies the move: the same window, from where the move leaves to where it arrives.
pub open spec fn flies(m: Move, request: AnimationRequest) -> bool {
    &&& m.in_active_workspace
    &&& m.server_id == Some(request.server_id)
    &&& request.window == m.window
    &&& request.from == m.from
    &&& request.to == m.to
    &&& request.floating == m.floating
}

impl PassPlan {
    /// The plan sorts this pass.
    pub open spec fn sorts(self, windows: Seq<PassWindow>) -> bool {
        &&& self.moves@ == moves_of(windows)
        &&& self.unmoved@ == standing(windows)
        &&& self.warm@ == warmed(moves_of(windows))
        &&& self.any_frame_changed == exists|i: int|
            0 <= i < windows.len() && !(#[trigger] windows[i]).stays()
    }

    /// What the overlay flies: the visible moves that have a server id to capture.
    pub fn overlay_requests(&self) -> (requests: Vec<AnimationRequest>)
        ensures
            requests@ == flown(self.moves@),
            forall|k: int|
                0 <= k < requests@.len() ==> exists|i: int|
                    0 <= i < self.moves@.len() && flies(
                        #[trigger] self.moves@[i],
                        #[trigger] requests@[k],
                    ),
    {
        let mut requests: Vec<AnimationRequest> = Vec::new();
        let mut i: usize = 0;
        while i < self.moves.len()
            invariant
                i <= self.moves@.len(),
                requests@ == flown(self.moves@.take(i as int)),
            decreases self.moves@.len() - i,
        {
            assert(self.moves@.take(i + 1).drop_last() == self.moves@.take(i as int));
            let m = self.moves[i];
            if let Some(server_id) = m.server_id {
                if m.in_active_workspace {
                    requests.push(
                        AnimationRequest {
                            window: m.window,
                            server_id,
                            from: m.from,
                            to: m.to,
                            floating: m.floating,
                        },
                    );
                }
            }
            i += 1;
        }
        assert(self.moves@.take(self.moves@.len() as int) == self.moves@);
        proof {
            assert forall|k: int| 0 <= k < requests@.len() implies exists|i: int|
                0 <= i < self.moves@.len() && flies(
                    #[trigger] self.moves@[i],
                    #[trigger] requests@[k],
                ) by {
                every_flight_is_a_visible_move(self.moves@, k);
            }
        }
        requests
    }
}

/// Sorts a pass. A window whose rounded target equals its current frame, or equals a frame already
/// in flight, is unmoved; the rest move.
pub fn plan(windows: &Vec<PassWindow>) -> (out: PassPlan)
    requires
        forall|i: int| 0 <= i < windows@.len() ==> (#[trigger] windows@[i]).target.inside(2),
    ensures
        out.sorts(windows@),
{
    let mut moves: Vec<Move> = Vec::new();
    let mut unmoved: Vec<AnimationRequest> = Vec::new();
    let mut warm: Vec<SnapshotTarget> = Vec::new();
    let mut any_frame_changed = false;
    let mut i: usize = 0;
    while i < windows.len()
        invariant
            i <= windows@.len(),
            forall|i: int| 0 <= i < windows@.len() ==> (#[trigger] windows@[i]).target.inside(2),
            moves@ == moves_of(windows@.take(i as int)),
            unmoved@ == standing(windows@.take(i as int)),
            warm@ == warmed(moves@),
            any_frame_changed == exists|j: int| 0 <= j < i && !(#[trigger] windows@[j]).stays(),
        decreases windows@.len() - i,
    {
        let w = windows[i];
        assert(windows@.take(i + 1).drop_last() == windows@.take(i as int));
        let to: Rect = w.target.round();
        assert(to == w.to());
        let on_its_way = match w.pending {
            Some(pending) => pending.same_as(to),
            None => false,
        };
        let stays = to.same_as(w.current) || on_its_way;
        assert(stays == windows@[i as int].stays());
        i += 1;
        if stays {
            if w.in_active_workspace {
                if let Some(server_id) = w.server_id {
                    unmoved.push(
                        AnimationRequest {
                            window: w.window,
                            server_id,
                            from: w.current,
                            to: w.current,
                            floating: w.floating,
                        },
                    );
                }
            }
            continue ;
        }
        any_frame_changed = true;
        if !w.app_alive {
            continue ;
        }
        let moved = Move {
            window: w.window,
            server_id: w.server_id,
            from: w.current,
            to,
            in_active_workspace: w.in_active_workspace,
            floating: w.floating,
        };
        assert(moves@.push(moved).drop_last() =~= moves@);
        if let Some(server_id) = w.server_id {
            warm.push(SnapshotTarget { window: w.window, server_id, size: to.size });
        }
        moves.push(moved);
    }
    assert(windows@.take(windows@.len() as int) == windows@);
    PassPlan { moves, unmoved, warm, any_frame_changed }
}

/// What an app is told about its windows' frames.
#[derive(Debug)]
pub enum Request {
    /// Whole frames.
    SetBatchWindowFrame(Vec<(WindowId, Rect)>, u64, bool),
    /// Origins alone, so the app skips the resize.
    SetWorkspaceSwitchPositions(Vec<(WindowId, Point)>, u64, bool),
}

/// The whole frames among these that `keep` tells to keep: all, or those whose size changes.
pub open spec fn full_frames(frames: Seq<(WindowId, Rect, bool)>, all: bool) -> Seq<
    (WindowId, Rect),
>
    decreases frames.len(),
{
    if frames.len() == 0 {
        Seq::empty()
    } else {
        let before = full_frames(frames.drop_last(), all);
        if all || !frames.last().2 {
            before.push((frames.last().0, frames.last().1))
        } else {
            before
        }
    }
}

/// The origins of the frames whose size is unchanged.
pub open spec fn origins(frames: Seq<(WindowId, Rect, bool)>) -> Seq<(WindowId, Point)>
    decreases frames.len(),
{
    if frames.len() == 0 {
        Seq::empty()
    } else {
        let before = origins(frames.drop_last());
        if frames.last().2 {
            before.push((frames.last().0, frames.last().1.origin))
        } else {
            before
        }
    }
}

/// A request that sends whole frames.
pub open spec fn sends_frames(request: Request, frames: Seq<(WindowId, Rect)>, txid: u64) -> bool {
    request matches Request::SetBatchWindowFrame(sent, id, flag) && sent@ == frames && id == txid
        && flag
}

/// A request that sends origins.
pub open spec fn sends_origins(request: Request, frames: Seq<(WindowId, Point)>, txid: u64) -> bool {
    request matches Request::SetWorkspaceSwitchPositions(sent, id, flag) && sent@ == frames && id
        == txid && flag
}

/// The requests that place one app's share of an instant pass. Position-only passes (a workspace
/// switch) send origins for the windows whose size is unchanged, so the app skips the resize.
pub fn instant_requests(frames: &Vec<(WindowId, Rect, bool)>, txid: u64, position_only: bool) -> (
requests: Vec<Request>)
    ensures
        !position_only ==> requests@.len() == 1 && sends_frames(
            requests@[0],
            full_frames(frames@, true),
            txid,
        ),
        position_only ==> {
            let moved = origins(frames@);
            let resized = full_frames(frames@, false);
            let first = if moved.len() > 0 {
                1int
            } else {
                0
            };
            &&& requests@.len() == first + (if resized.len() > 0 {
                1int
            } else {
                0
            })
            &&& moved.len() > 0 ==> sends_origins(requests@[0], moved, txid)
            &&& resized.len() > 0 ==> sends_frames(requests@[first], resized, txid)
        },
{
    let mut positions: Vec<(WindowId, Point)> = Vec::new();
    let mut full: Vec<(WindowId, Rect)> = Vec::new();
    let mut i: usize = 0;
    while i < frames.len()
        invariant
            i <= frames@.len(),
            full@ == full_frames(frames@.take(i as int), !position_only),
            position_only ==> positions@ == origins(frames@.take(i as int)),
        decreases frames@.len() - i,
    {
        assert(frames@.take(i + 1).drop_last() == frames@.take(i as int));
        let (window, frame, size_unchanged) = frames[i];
        if position_only && size_unchanged {
            positions.push((window, frame.origin));
        } else {
            full.push((window, frame));
        }
        i += 1;
    }
    assert(frames@.take(frames@.len() as int) == frames@);
    let mut requests: Vec<Request> = Vec::new();
    if !position_only {
        requests.push(Request::SetBatchWindowFrame(full, txid, true));
        return requests;
    }
    if positions.len() > 0 {
        requests.push(Request::SetWorkspaceSwitchPositions(positions, txid, true));
    }
    if full.len() > 0 {
        requests.push(Request::SetBatchWindowFrame(full, txid, true));
    }
    requests
}

/// The overlay is told of every window it covers: a window of the active workspace that can be
/// captured and whose app can be told either moves or stands, and only one of the two.
pub proof fn a_visible_window_moves_or_stands(windows: Seq<PassWindow>, i: int)
    requires
        0 <= i < windows.len(),
        windows[i].in_active_workspace,
        windows[i].server_id is Some,
        windows[i].app_alive,
    ensures
        windows[i].stays() ==> exists|k: int|
            0 <= k < standing(windows).len() && (#[trigger] standing(windows)[k]).window
                == windows[i].window,
        !windows[i].stays() ==> exists|k: int|
            0 <= k < moves_of(windows).len() && #[trigger] moves_of(windows)[k]
                == windows[i].to_move(),
    decreases windows.len(),
{
    let rest = windows.drop_last();
    if i < rest.len() {
        a_visible_window_moves_or_stands(rest, i);
        assert(rest[i] == windows[i]);
        if windows[i].stays() {
            let k = choose|k: int|
                0 <= k < standing(rest).len() && (#[trigger] standing(rest)[k]).window
                    == windows[i].window;
            assert(standing(windows)[k] == standing(rest)[k]);
        } else {
            let k = choose|k: int|
                0 <= k < moves_of(rest).len() && #[trigger] moves_of(rest)[k]
                    == windows[i].to_move();
            assert(moves_of(windows)[k] == moves_of(rest)[k]);
        }
    } else if windows[i].stays() {
        assert(standing(windows)[standing(rest).len() as int].window == windows[i].window);
    } else {
        assert(moves_of(windows)[moves_of(rest).len() as int] == windows[i].to_move());
    }
}

/// Position-only requests leave no window out: each frame is sent either as an origin or whole.
pub proof fn every_frame_is_sent(frames: Seq<(WindowId, Rect, bool)>)
    ensures
        origins(frames).len() + full_frames(frames, false).len() == frames.len(),
        full_frames(frames, true).len() == frames.len(),
    decreases frames.len(),
{
    if frames.len() > 0 {
        every_frame_is_sent(frames.drop_last());
    }
}

/// What the overlay flies is a move of the plan, of a visible window, from where that move leaves to
/// where it arrives.
pub proof fn every_flight_is_a_visible_move(moves: Seq<Move>, k: int)
    requires
        0 <= k < flown(moves).len(),
    ensures
        exists|i: int|
            {
                &&& 0 <= i < moves.len()
                &&& (#[trigger] moves[i]).in_active_workspace
                &&& moves[i].server_id == Some(flown(moves)[k].server_id)
                &&& flown(moves)[k].window == moves[i].window
                &&& flown(moves)[k].from == moves[i].from
                &&& flown(moves)[k].to == moves[i].to
                &&& flown(moves)[k].floating == moves[i].floating
            },
        exists|i: int| 0 <= i < moves.len() && flies(#[trigger] moves[i], flown(moves)[k]),
    decreases moves.len(),
{
    let rest = moves.drop_last();
    if k < flown(rest).len() {
        every_flight_is_a_visible_move(rest, k);
        let i = choose|i: int| 0 <= i < rest.len() && flies(#[trigger] rest[i], flown(rest)[k]);
        assert(rest[i] == moves[i]);
        assert(flies(moves[i], flown(moves)[k]));
    } else {
        assert(flies(moves[moves.len() - 1], flown(moves)[k]));
    }
}

/// Every visible move that can be captured is flown.
pub proof fn every_visible_move_is_flown(moves: Seq<Move>, i: int)
    requires
        0 <= i < moves.len(),
        moves[i].in_active_workspace,
        moves[i].server_id is Some,
    ensures
        exists|k: int|
            {
                &&& 0 <= k < flown(moves).len()
                &&& (#[trigger] flown(moves)[k]).window == moves[i].window
                &&& Some(flown(moves)[k].server_id) == moves[i].server_id
                &&& flown(moves)[k].from == moves[i].from
                &&& flown(moves)[k].to == moves[i].to
                &&& flown(moves)[k].floating == moves[i].floating
            },
    decreases moves.len(),
{
    let rest = moves.drop_last();
    if i < rest.len() {
        every_visible_move_is_flown(rest, i);
        assert(rest[i] == moves[i]);
        let k = choose|k: int|
            {
                &&& 0 <= k < flown(rest).len()
                &&& (#[trigger] flown(rest)[k]).window == rest[i].window
                &&& Some(flown(rest)[k].server_id) == rest[i].server_id
                &&& flown(rest)[k].from == rest[i].from
                &&& flown(rest)[k].to == rest[i].to
                &&& flown(rest)[k].floating == rest[i].floating
            };
        assert(flown(moves)[k] == flown(rest)[k]);
    } else {
        assert(flown(moves)[flown(rest).len() as int].window == moves[i].window);
    }
}

/// The lists of a pass keep its order: those of two stretches one after the other are the lists of
/// the first, then those of the second. One window adds at most one entry to each.
pub proof fn a_pass_is_sorted_in_order(windows: Seq<PassWindow>, more: Seq<PassWindow>)
    ensures
        moves_of(windows + more) == moves_of(windows) + moves_of(more),
        standing(windows + more) == standing(windows) + standing(more),
        warmed(moves_of(windows + more)) == warmed(moves_of(windows)) + warmed(moves_of(more)),
        flown(moves_of(windows + more)) == flown(moves_of(windows)) + flown(moves_of(more)),
        more.len() == 1 ==> moves_of(more).len() <= 1 && standing(more).len() <= 1 && moves_of(
            more,
        ).len() + standing(more).len() <= 1,
    decreases more.len(),
{
    if more.len() == 0 {
        assert(windows + more =~= windows);
        assert(moves_of(windows) + moves_of(more) =~= moves_of(windows));
        assert(standing(windows) + standing(more) =~= standing(windows));
    } else {
        a_pass_is_sorted_in_order(windows, more.drop_last());
        assert((windows + more).drop_last() =~= windows + more.drop_last());
        assert((windows + more).last() == more.last());
        assert(moves_of(windows + more) =~= moves_of(windows) + moves_of(more));
        assert(standing(windows + more) =~= standing(windows) + standing(more));
        if more.len() == 1 {
            assert(more.drop_last().len() == 0);
        }
    }
    moves_are_listed_in_order(moves_of(windows), moves_of(more));
}

/// What is warmed and what is flown of two lists of moves is that of the first, then that of the
/// second.
pub proof fn moves_are_listed_in_order(moves: Seq<Move>, more: Seq<Move>)
    ensures
        warmed(moves + more) == warmed(moves) + warmed(more),
        flown(moves + more) == flown(moves) + flown(more),
        more.len() == 1 ==> warmed(more).len() <= 1 && flown(more).len() <= warmed(more).len(),
    decreases more.len(),
{
    if more.len() == 0 {
        assert(moves + more =~= moves);
        assert(warmed(moves) + warmed(more) =~= warmed(moves));
        assert(flown(moves) + flown(more) =~= flown(moves));
    } else {
        moves_are_listed_in_order(moves, more.drop_last());
        assert((moves + more).drop_last() =~= moves + more.drop_last());
        assert((moves + more).last() == more.last());
        assert(warmed(moves + more) =~= warmed(moves) + warmed(more));
        assert(flown(moves + more) =~= flown(moves) + flown(more));
        if more.len() == 1 {
            assert(more.drop_last().len() == 0);
            assert(warmed(more.drop_last()).len() == 0);
            assert(flown(more.drop_last()).len() == 0);
        }
    }
}

/// A move is that of a window of the pass whose app can be told and that is not there already: from
/// where the window is to its target, snapped.
pub proof fn every_move_leaves_a_current_frame(windows: Seq<PassWindow>, k: int)
    requires
        0 <= k < moves_of(windows).len(),
    ensures
        exists|i: int|
            {
                &&& 0 <= i < windows.len()
                &&& (#[trigger] windows[i]).app_alive && !windows[i].stays()
                &&& moves_of(windows)[k].window == windows[i].window
                &&& moves_of(windows)[k].server_id == windows[i].server_id
                &&& moves_of(windows)[k].from == windows[i].current
                &&& moves_of(windows)[k].to == snapped(windows[i].target)
                &&& moves_of(windows)[k].in_active_workspace == windows[i].in_active_workspace
                &&& moves_of(windows)[k].floating == windows[i].floating
            },
    decreases windows.len(),
{
    let rest = windows.drop_last();
    if k < moves_of(rest).len() {
        every_move_leaves_a_current_frame(rest, k);
        let i = choose|i: int|
            {
                &&& 0 <= i < rest.len()
                &&& (#[trigger] rest[i]).app_alive && !rest[i].stays()
                &&& moves_of(rest)[k].window == rest[i].window
                &&& moves_of(rest)[k].server_id == rest[i].server_id
                &&& moves_of(rest)[k].from == rest[i].current
                &&& moves_of(rest)[k].to == snapped(rest[i].target)
                &&& moves_of(rest)[k].in_active_workspace == rest[i].in_active_workspace
                &&& moves_of(rest)[k].floating == rest[i].floating
            };
        assert(rest[i] == windows[i]);
        assert(moves_of(windows)[k] == moves_of(rest)[k]);
    } else {
        assert(windows[windows.len() - 1].app_alive);
    }
}

/// Every visible window that moves is flown from its current frame to its target, each edge snapped
/// to whole points.
pub proof fn a_visible_window_flies_to_its_target(windows: Seq<PassWindow>, i: int)
    requires
        0 <= i < windows.len(),
        windows[i].target.inside(2),
        windows[i].in_active_workspace,
        windows[i].server_id is Some,
        windows[i].app_alive,
        !windows[i].stays(),
    ensures
        exists|k: int|
            {
                let request = #[trigger] flown(moves_of(windows))[k];
                &&& 0 <= k < flown(moves_of(windows)).len()
                &&& request.window == windows[i].window
                &&& Some(request.server_id) == windows[i].server_id
                &&& request.floating == windows[i].floating
                &&& request.from == windows[i].current
                &&& request.to.left() == rounded(windows[i].target.left())
                &&& request.to.top() == rounded(windows[i].target.top())
                &&& request.to.right() == rounded(windows[i].target.right())
                &&& request.to.bottom() == rounded(windows[i].target.bottom())
            },
{
    a_visible_window_moves_or_stands(windows, i);
    let moves = moves_of(windows);
    let m = choose|k: int| 0 <= k < moves.len() && #[trigger] moves[k] == windows[i].to_move();
    every_visible_move_is_flown(moves, m);
    crate::geometry::rounding_gives_the_nearest_point(windows[i].target.left());
    crate::geometry::rounding_gives_the_nearest_point(windows[i].target.right());
    crate::geometry::rounding_gives_the_nearest_point(windows[i].target.top());
    crate::geometry::rounding_gives_the_nearest_point(windows[i].target.bottom());
}

/// A target is snapped edge by edge: every edge to a whole point, no edge by more than half a point,
/// so frames that share an edge still share it.
pub proof fn snapping_keeps_shared_edges(a: Rect, b: Rect)
    requires
        a.inside(2),
        b.inside(2),
    ensures
        snapped(a).origin.x % 1000 == 0 && snapped(a).origin.y % 1000 == 0,
        snapped(a).size.width % 1000 == 0 && snapped(a).size.height % 1000 == 0,
        -500 <= snapped(a).origin.x - a.origin.x <= 500,
        -500 <= snapped(a).origin.y - a.origin.y <= 500,
        -500 <= snapped(a).right() - a.right() <= 500,
        -500 <= snapped(a).bottom() - a.bottom() <= 500,
        a.origin.x + a.size.width == b.origin.x ==> snapped(a).origin.x + snapped(a).size.width
            == snapped(b).origin.x,
        a.origin.y + a.size.height == b.origin.y ==> snapped(a).origin.y + snapped(a).size.height
            == snapped(b).origin.y,
{
    crate::geometry::rounding_gives_the_nearest_point(a.left());
    crate::geometry::rounding_gives_the_nearest_point(a.right());
    crate::geometry::rounding_gives_the_nearest_point(a.top());
    crate::geometry::rounding_gives_the_nearest_point(a.bottom());
    crate::geometry::rounding_gives_the_nearest_point(b.left());
    crate::geometry::rounding_gives_the_nearest_point(b.top());
}

/// A window stays when it stands at its snapped target, or a frame on its way there is that target;
/// nothing else keeps it.
pub proof fn a_window_stays_where_it_is_wanted(w: PassWindow)
    ensures
        same_frame(w.current, snapped(w.target)) ==> w.stays(),
        w.pending matches Some(frame) ==> same_frame(frame, snapped(w.target)) ==> w.stays(),
        !same_frame(w.current, snapped(w.target)) && w.pending is None ==> !w.stays(),
        !same_frame(w.current, snapped(w.target)) && (w.pending matches Some(frame)
            && !same_frame(frame, snapped(w.target))) ==> !w.stays(),
{
    crate::geometry::sameness_is_symmetric(w.current, snapped(w.target));
}

/// A window that is left alone is drawn standing where it is now: the same frame at both ends, on
/// the active workspace only.
pub proof fn a_standing_window_is_drawn_where_it_is(windows: Seq<PassWindow>, k: int)
    requires
        0 <= k < standing(windows).len(),
    ensures
        exists|i: int|
            {
                &&& 0 <= i < windows.len()
                &&& (#[trigger] windows[i]).stays() && windows[i].in_active_workspace
                &&& windows[i].server_id == Some(standing(windows)[k].server_id)
                &&& standing(windows)[k].window == windows[i].window
                &&& standing(windows)[k].from == windows[i].current
                &&& standing(windows)[k].to == windows[i].current
                &&& standing(windows)[k].floating == windows[i].floating
            },
    decreases windows.len(),
{
    let rest = windows.drop_last();
    if k < standing(rest).len() {
        a_standing_window_is_drawn_where_it_is(rest, k);
        let i = choose|i: int|
            {
                &&& 0 <= i < rest.len()
                &&& (#[trigger] rest[i]).stays() && rest[i].in_active_workspace
                &&& rest[i].server_id == Some(standing(rest)[k].server_id)
                &&& standing(rest)[k].window == rest[i].window
                &&& standing(rest)[k].from == rest[i].current
                &&& standing(rest)[k].to == rest[i].current
                &&& standing(rest)[k].floating == rest[i].floating
            };
        assert(rest[i] == windows[i]);
        assert(standing(windows)[k] == standing(rest)[k]);
    } else {
        assert(windows[windows.len() - 1].stays());
    }
}

/// A visible window that stays and can be captured is among the standing ones, whether or not its app
/// can be told.
pub proof fn a_visible_window_that_stays_is_standing(windows: Seq<PassWindow>, i: int)
    requires
        0 <= i < windows.len(),
        windows[i].in_active_workspace,
        windows[i].server_id is Some,
        windows[i].stays(),
    ensures
        exists|k: int|
            0 <= k < standing(windows).len() && (#[trigger] standing(windows)[k]).window
                == windows[i].window && standing(windows)[k].from == windows[i].current,
    decreases windows.len(),
{
    let rest = windows.drop_last();
    if i < rest.len() {
        a_visible_window_that_stays_is_standing(rest, i);
        assert(rest[i] == windows[i]);
        let k = choose|k: int|
            0 <= k < standing(rest).len() && (#[trigger] standing(rest)[k]).window
                == rest[i].window && standing(rest)[k].from == rest[i].current;
        assert(standing(windows)[k] == standing(rest)[k]);
    } else {
        assert(standing(windows)[standing(rest).len() as int].window == windows[i].window);
    }
}

/// A picture is warmed of every move that can be captured, visible or not, at the size the window is
/// going to have; nothing else is warmed.
pub proof fn what_moves_is_warmed_at_its_new_size(moves: Seq<Move>, k: int, i: int)
    ensures
        0 <= k < warmed(moves).len() ==> exists|j: int|
            {
                &&& 0 <= j < moves.len()
                &&& (#[trigger] moves[j]).server_id == Some(warmed(moves)[k].server_id)
                &&& warmed(moves)[k].window == moves[j].window
                &&& warmed(moves)[k].size == moves[j].to.size
            },
        0 <= i < moves.len() && moves[i].server_id is Some ==> exists|j: int|
            {
                &&& 0 <= j < warmed(moves).len()
                &&& (#[trigger] warmed(moves)[j]).window == moves[i].window
                &&& Some(warmed(moves)[j].server_id) == moves[i].server_id
                &&& warmed(moves)[j].size == moves[i].to.size
            },
    decreases moves.len(),
{
    if moves.len() > 0 {
        let rest = moves.drop_last();
        what_moves_is_warmed_at_its_new_size(rest, k, i);
        if 0 <= k < warmed(rest).len() {
            let j = choose|j: int|
                {
                    &&& 0 <= j < rest.len()
                    &&& (#[trigger] rest[j]).server_id == Some(warmed(rest)[k].server_id)
                    &&& warmed(rest)[k].window == rest[j].window
                    &&& warmed(rest)[k].size == rest[j].to.size
                };
            assert(rest[j] == moves[j]);
            assert(warmed(moves)[k] == warmed(rest)[k]);
        } else if 0 <= k < warmed(moves).len() {
            assert(moves[moves.len() - 1].server_id == Some(warmed(moves)[k].server_id));
        }
        if 0 <= i < rest.len() && moves[i].server_id is Some {
            assert(rest[i] == moves[i]);
            let j = choose|j: int|
                {
                    &&& 0 <= j < warmed(rest).len()
                    &&& (#[trigger] warmed(rest)[j]).window == rest[i].window
                    &&& Some(warmed(rest)[j].server_id) == rest[i].server_id
                    &&& warmed(rest)[j].size == rest[i].to.size
                };
            assert(warmed(moves)[j] == warmed(rest)[j]);
        } else if i == rest.len() && moves[i].server_id is Some {
            assert(warmed(moves)[warmed(rest).len() as int].window == moves[i].window);
        }
    }
}

/// A pass changes frames exactly when some window, its app alive or not, is not where it is wanted.
pub proof fn a_pass_with_a_move_changes_frames(windows: Vec<PassWindow>, plan: PassPlan)
    requires
        plan.sorts(windows@),
    ensures
        plan.moves@.len() > 0 ==> plan.any_frame_changed,
        plan.any_frame_changed ==> exists|i: int|
            0 <= i < windows@.len() && !(#[trigger] windows@[i]).stays(),
        forall|i: int|
            0 <= i < windows@.len() && !(#[trigger] windows@[i]).stays() ==> plan.any_frame_changed,
{
    if plan.moves@.len() > 0 {
        every_move_leaves_a_current_frame(windows@, 0);
    }
}

/// A frame whose size is unchanged is sent as its origin alone, any other whole, each under its own
/// window; a pass that is not position-only sends them all whole, in order.
pub proof fn each_frame_is_sent_as_it_changes(frames: Seq<(WindowId, Rect, bool)>, i: int)
    requires
        0 <= i < frames.len(),
    ensures
        full_frames(frames, true).len() == frames.len(),
        full_frames(frames, true)[i] == (frames[i].0, frames[i].1),
        frames[i].2 ==> origins(frames).contains((frames[i].0, frames[i].1.origin)),
        !frames[i].2 ==> full_frames(frames, false).contains((frames[i].0, frames[i].1)),
    decreases frames.len(),
{
    every_frame_is_sent(frames);
    let rest = frames.drop_last();
    every_frame_is_sent(rest);
    if i < rest.len() {
        each_frame_is_sent_as_it_changes(rest, i);
        assert(rest[i] == frames[i]);
        if frames[i].2 {
            let k = choose|k: int|
                0 <= k < origins(rest).len() && origins(rest)[k] == (frames[i].0, frames[i].1.origin);
            assert(origins(frames)[k] == origins(rest)[k]);
        } else {
            let k = choose|k: int|
                0 <= k < full_frames(rest, false).len() && full_frames(rest, false)[k] == (
                    frames[i].0,
                    frames[i].1,
                );
            assert(full_frames(frames, false)[k] == full_frames(rest, false)[k]);
        }
    } else if frames[i].2 {
        assert(origins(frames)[origins(rest).len() as int] == (frames[i].0, frames[i].1.origin));
    } else {
        assert(full_frames(frames, false)[full_frames(rest, false).len() as int] == (
            frames[i].0,
            frames[i].1,
        ));
    }
}

/// Frames are sent in order: what is sent of two lists is what is sent of the first, then of the
/// second.
pub proof fn frames_are_sent_in_order(
    frames: Seq<(WindowId, Rect, bool)>,
    more: Seq<(WindowId, Rect, bool)>,
    all: bool,
)
    ensures
        full_frames(frames + more, all) == full_frames(frames, all) + full_frames(more, all),
        origins(frames + more) == origins(frames) + origins(more),
    decreases more.len(),
{
    if more.len() == 0 {
        assert(frames + more =~= frames);
        assert(full_frames(frames, all) + full_frames(more, all) =~= full_frames(frames, all));
        assert(origins(frames) + origins(more) =~= origins(frames));
    } else {
        frames_are_sent_in_order(frames, more.drop_last(), all);
        assert((frames + more).drop_last() =~= frames + more.drop_last());
        assert((frames + more).last() == more.last());
        assert(full_frames(frames + more, all) =~= full_frames(frames, all) + full_frames(
            more,
            all,
        ));
        assert(origins(frames + more) =~= origins(frames) + origins(more));
    }
}

/// A request carries its transaction and nothing of another list.
pub proof fn a_request_carries_its_frames(
    frames: Vec<(WindowId, Rect, bool)>,
    txid: u64,
    whole: Vec<Request>,
)
    requires
        call_ensures(instant_requests, (&frames, txid, false), whole),
    ensures
        whole@.len() == 1,
        whole@[0] matches Request::SetBatchWindowFrame(sent, id, eui) && id == txid && eui
            && sent@.len() == frames@.len() && forall|i: int|
            0 <= i < frames@.len() ==> #[trigger] sent@[i] == (frames@[i].0, frames@[i].1),
{
    every_frame_is_sent(frames@);
    assert forall|i: int| 0 <= i < frames@.len() implies #[trigger] full_frames(frames@, true)[i]
        == (frames@[i].0, frames@[i].1) by {
        each_frame_is_sent_as_it_changes(frames@, i);
    }
}

/// A position-only pass sends origins first, then whole frames, and leaves an empty list unsent.
pub proof fn a_position_only_pass_sends_what_there_is(
    frames: Vec<(WindowId, Rect, bool)>,
    txid: u64,
    sent: Vec<Request>,
    i: int,
)
    requires
        call_ensures(instant_requests, (&frames, txid, true), sent),
        0 <= i < frames@.len(),
    ensures
        1 <= sent@.len() <= 2,
        frames@[i].2 ==> (sent@[0] matches Request::SetWorkspaceSwitchPositions(moved, id, eui)
            && id == txid && eui && moved@.contains((frames@[i].0, frames@[i].1.origin))),
        !frames@[i].2 ==> (sent@.last() matches Request::SetBatchWindowFrame(whole, id, eui) && id
            == txid && eui && whole@.contains((frames@[i].0, frames@[i].1))),
        sent@.len() == 2 ==> sent@[0] is SetWorkspaceSwitchPositions && sent@[1] is SetBatchWindowFrame,
{
    every_frame_is_sent(frames@);
    each_frame_is_sent_as_it_changes(frames@, i);
}

/// From a pass to the overlay: a visible window that is not where it is wanted is flown from where it
/// is to where the layout puts it, and one that stays is drawn standing where it is.
pub proof fn the_overlay_flies_what_the_pass_moves(
    windows: Vec<PassWindow>,
    sorted: PassPlan,
    requests: Vec<AnimationRequest>,
    i: int,
)
    requires
        forall|j: int| 0 <= j < windows@.len() ==> (#[trigger] windows@[j]).target.inside(2),
        call_ensures(plan, (&windows,), sorted),
        call_ensures(PassPlan::overlay_requests, (&sorted,), requests),
        0 <= i < windows@.len(),
        windows@[i].in_active_workspace,
        windows@[i].server_id is Some,
        windows@[i].app_alive,
    ensures
        !windows@[i].stays() ==> sorted.any_frame_changed && exists|k: int|
            {
                &&& 0 <= k < requests@.len()
                &&& (#[trigger] requests@[k]).window == windows@[i].window
                &&& requests@[k].from == windows@[i].current
                &&& requests@[k].to.left() == rounded(windows@[i].target.left())
                &&& requests@[k].to.top() == rounded(windows@[i].target.top())
                &&& requests@[k].to.right() == rounded(windows@[i].target.right())
                &&& requests@[k].to.bottom() == rounded(windows@[i].target.bottom())
            },
        windows@[i].stays() ==> exists|k: int|
            0 <= k < sorted.unmoved@.len() && (#[trigger] sorted.unmoved@[k]).window
                == windows@[i].window && sorted.unmoved@[k].from == windows@[i].current,
        sorted.warm@ == warmed(sorted.moves@),
{
    assert(windows@[i].target.inside(2));
    if windows@[i].stays() {
        a_visible_window_that_stays_is_standing(windows@, i);
    } else {
        a_visible_window_flies_to_its_target(windows@, i);
        let k = choose|k: int|
            {
                let request = #[trigger] flown(moves_of(windows@))[k];
                &&& 0 <= k < flown(moves_of(windows@)).len()
                &&& request.window == windows@[i].window
                &&& Some(request.server_id) == windows@[i].server_id
                &&& request.floating == windows@[i].floating
                &&& request.from == windows@[i].current
                &&& request.to.left() == rounded(windows@[i].target.left())
                &&& request.to.top() == rounded(windows@[i].target.top())
                &&& request.to.right() == rounded(windows@[i].target.right())
                &&& request.to.bottom() == rounded(windows@[i].target.bottom())
            };
        assert(requests@[k].window == windows@[i].window);
        a_pass_with_a_move_changes_frames(windows, sorted);
    }
}

/// A move keeps its window's size when both extents change by less than a tenth of a point.
pub proof fn a_move_keeps_the_size_within_a_tenth(m: Move, unchanged: bool)
    requires
        call_ensures(Move::size_unchanged, (&m,), unchanged),
    ensures
        unchanged <==> -100 < m.from.size.width - m.to.size.width < 100 && -100 < m.from.size.height
            - m.to.size.height < 100,
{
}

} // verus!
