//! One fixed surface of windows moved as a whole by a travelling viewport: the model behind a
//! strip pan or a workspace switch.
use vstd::prelude::*;

use crate::geometry::{Point, Rect};
use crate::ids::{WindowId, WindowServerId};

verus! {

/// One window's fixed place on a surface. `frame` is never interpolated; the viewport moves.
#[derive(Clone, Copy, PartialEq, Eq, Structural, Debug)]
pub struct SurfaceWindow {
    pub window: WindowId,
    pub server_id: WindowServerId,
    pub frame: Rect,
    /// Held still while the surface moves under it.
    pub pinned: bool,
    /// Drawn in the other band of the stacking order.
    pub floating: bool,
}

/// What a drawn tile is, as far as movements are concerned. Every window the surface does not carry
/// is drawn where it stands; the implementor decides what the window is.
pub trait TileGeometry {
    spec fn shows(&self) -> WindowId;

    spec fn starts(&self) -> Rect;

    spec fn ends(&self) -> Rect;

    spec fn floats(&self) -> bool;

    spec fn accompanies(&self) -> bool;

    fn window(&self) -> (r: WindowId)
        ensures
            r == self.shows(),
    ;

    fn from(&self) -> (r: Rect)
        ensures
            r == self.starts(),
    ;

    fn to(&self) -> (r: Rect)
        ensures
            r == self.ends(),
    ;

    fn floating(&self) -> (r: bool)
        ensures
            r == self.floats(),
    ;

    fn companion(&self) -> (r: bool)
        ensures
            r == self.accompanies(),
    ;
}

/// Where a window of the surface stands when the viewport is at `offset`.
pub open spec fn seen_from(frame: Rect, offset: Point, pinned: bool) -> Rect {
    if pinned {
        frame
    } else {
        frame.moved(-offset.x, -offset.y)
    }
}

/// Where each tile of a strip movement starts and ends on screen, in overlay coordinates.
///
/// The surface is fixed; the viewport travels from `from_offset` to `to_offset`, so every unpinned
/// window translates by the opposite of that travel. A pinned window stands still, and a standing
/// tile still has to exist, because the overlay is opaque and anything it omits vanishes.
pub fn surface_travel(frame: Rect, from_offset: Point, to_offset: Point, pinned: bool) -> (r: (
    Rect,
    Rect,
))
    requires
        frame.inside(1),
        from_offset.inside(1),
        to_offset.inside(1),
    ensures
        r.0 == seen_from(frame, from_offset, pinned),
        r.1 == seen_from(frame, to_offset, pinned),
        r.0.inside(2),
        r.1.inside(2),
{
    if pinned {
        return (frame, frame);
    }
    let from: Rect = frame.translated(Point { x: -from_offset.x, y: -from_offset.y });
    let to: Rect = frame.translated(Point { x: -to_offset.x, y: -to_offset.y });
    (from, to)
}

/// How far a viewport travelling from `from_offset` to `to_offset` carries every unpinned tile.
pub open spec fn pan_vector(from_offset: Point, to_offset: Point) -> Point {
    Point { x: (from_offset.x - to_offset.x) as i64, y: (from_offset.y - to_offset.y) as i64 }
}

/// How far a strip movement carries every unpinned tile.
pub fn pan_travel(from_offset: Point, to_offset: Point) -> (r: Point)
    requires
        from_offset.inside(1),
        to_offset.inside(1),
    ensures
        r == pan_vector(from_offset, to_offset),
        r.inside(2),
{
    Point { x: from_offset.x - to_offset.x, y: from_offset.y - to_offset.y }
}

/// `frame` as the overlay at `overlay_frame` sees it.
pub open spec fn in_overlay(frame: Rect, overlay_frame: Rect) -> Rect {
    frame.moved(-overlay_frame.origin.x, -overlay_frame.origin.y)
}

/// Converts a display-space frame into the overlay's own coordinate space.
///
/// The overlay's layer tree has its origin at the overlay's top left, not the display's, so a
/// window frame has to have the overlay's origin subtracted.
pub fn to_overlay_space(frame: Rect, overlay_frame: Rect) -> (r: Rect)
    requires
        frame.inside(8),
        overlay_frame.inside(1),
    ensures
        r == in_overlay(frame, overlay_frame),
        r.inside(9),
{
    frame.translated(Point { x: -overlay_frame.origin.x, y: -overlay_frame.origin.y })
}

/// A strip movement is rigid: every unpinned window moves by the same vector and keeps its size, and
/// that vector is the pan's.
pub proof fn a_strip_movement_is_rigid(frame: Rect, from_offset: Point, to_offset: Point)
    requires
        frame.inside(1),
        from_offset.inside(1),
        to_offset.inside(1),
    ensures
        ({
            let from = seen_from(frame, from_offset, false);
            let to = seen_from(frame, to_offset, false);
            let travel = pan_vector(from_offset, to_offset);
            &&& to == from.moved(travel.x as int, travel.y as int)
            &&& from.size == frame.size && to.size == frame.size
        }),
{
}

/// A pinned window stands where it stands, whatever the viewport does.
pub proof fn a_pinned_window_stands_still(frame: Rect, offset: Point)
    ensures
        seen_from(frame, offset, true) == frame,
{
}

/// Entering the overlay's space loses nothing: moving back by the overlay's origin gives the frame.
pub proof fn overlay_space_is_reversible(frame: Rect, overlay_frame: Rect)
    requires
        frame.inside(8),
        overlay_frame.inside(1),
    ensures
        in_overlay(frame, overlay_frame).moved(
            overlay_frame.origin.x as int,
            overlay_frame.origin.y as int,
        ) == frame,
        in_overlay(overlay_frame, overlay_frame).left() == 0,
        in_overlay(overlay_frame, overlay_frame).top() == 0,
{
}

/// Where a strip movement shows a window: at the window's place on the surface less the viewport's,
/// at both ends, its size kept.
pub proof fn a_viewport_shows_what_it_stands_over(frame: Rect, offset: Point)
    requires
        frame.inside(1),
        offset.inside(1),
    ensures
        seen_from(frame, offset, false).origin.x + offset.x == frame.origin.x,
        seen_from(frame, offset, false).origin.y + offset.y == frame.origin.y,
        seen_from(frame, offset, false).size == frame.size,
{
}

/// Two windows keep their distance whatever the viewport does, and a viewport that moves one way
/// carries them the other way by as much.
pub proof fn a_pan_goes_against_the_viewport(
    a: Rect,
    b: Rect,
    from_offset: Point,
    to_offset: Point,
)
    requires
        a.inside(1),
        b.inside(1),
        from_offset.inside(1),
        to_offset.inside(1),
    ensures
        pan_vector(from_offset, to_offset).x == from_offset.x - to_offset.x,
        pan_vector(from_offset, to_offset).y == from_offset.y - to_offset.y,
        seen_from(a, to_offset, false).origin.x - seen_from(b, to_offset, false).origin.x
            == a.origin.x - b.origin.x,
        seen_from(a, to_offset, false).origin.y - seen_from(b, to_offset, false).origin.y
            == a.origin.y - b.origin.y,
        seen_from(a, to_offset, false).origin.x - seen_from(a, from_offset, false).origin.x
            == from_offset.x - to_offset.x,
        seen_from(a, to_offset, false).origin.y - seen_from(a, from_offset, false).origin.y
            == from_offset.y - to_offset.y,
{
}

/// On the overlay a frame stands as far from the overlay's corner as it stands from it on the display,
/// and keeps its size.
pub proof fn overlay_space_starts_at_the_overlays_corner(frame: Rect, overlay_frame: Rect)
    requires
        frame.inside(8),
        overlay_frame.inside(1),
    ensures
        in_overlay(frame, overlay_frame).origin.x == frame.origin.x - overlay_frame.origin.x,
        in_overlay(frame, overlay_frame).origin.y == frame.origin.y - overlay_frame.origin.y,
        in_overlay(frame, overlay_frame).size == frame.size,
{
}

/// A strip movement's travel is as far as the viewport goes, the other way.
pub proof fn a_pans_travel_is_the_viewports_turned_round(
    from_offset: Point,
    to_offset: Point,
    travel: Point,
    back: Point,
)
    requires
        from_offset.inside(1),
        to_offset.inside(1),
        call_ensures(pan_travel, (from_offset, to_offset), travel),
        call_ensures(pan_travel, (to_offset, from_offset), back),
    ensures
        travel.x == from_offset.x - to_offset.x && travel.y == from_offset.y - to_offset.y,
        travel.x + back.x == 0 && travel.y + back.y == 0,
{
}

} // verus!
