//! Where a tile really starts and ends. The layout hands over a `from` and a `to`; a parked window's
//! `from` is a corner it never visibly occupied, and its neighbours' travel says which way it should
//! come in.
use vstd::prelude::*;

use crate::geometry::{
    distance, distance_between, entry_frame, is_off_screen, lesser, off_screen, park_entry_frame,
    product, same_frame, shared_span, visible_height, visible_width, CGRectExt, Point, Rect, SameAs,
};
use crate::tile::{lerp_rect, lerped};

verus! {

/// The smallest visible extent that still reads as a window rather than a sliver.
///
/// The share test alone starved wide windows: a 1720pt window showing 400pt is under a quarter by
/// area yet is exactly the column peeking in that a scrolling layout is made of.
pub const MIN_VISIBLE_EXTENT: i64 = 80_000;

/// How many places of a path are looked at, both ends among them.
pub const SAMPLES: u8 = 11;

/// How much of `frame` shows on `display`, as the overlap's width and height.
pub fn on_screen_extent(frame: Rect, display: Rect) -> (r: (i128, i128))
    ensures
        r.0 == visible_width(display, frame),
        r.1 == visible_height(display, frame),
{
    let w: i128 = shared_span(
        frame.origin.x as i128,
        frame.max_x(),
        display.origin.x as i128,
        display.max_x(),
    );
    let h: i128 = shared_span(
        frame.origin.y as i128,
        frame.max_y(),
        display.origin.y as i128,
        display.max_y(),
    );
    (w, h)
}

/// The part of `frame`'s area inside `display`, and the area it is part of; nothing out of one when
/// the frame has no area or shows nowhere.
pub open spec fn shown_share(frame: Rect, display: Rect) -> (int, int) {
    let area = frame.size.width * frame.size.height;
    let w = visible_width(display, frame);
    let h = visible_height(display, frame);
    if area <= 0 || w <= 0 || h <= 0 {
        (0, 1)
    } else {
        (w * h, area)
    }
}

proof fn extents_are_bounded(frame: Rect, display: Rect)
    requires
        frame.inside(80),
        display.inside(80),
    ensures
        0 <= visible_width(display, frame) <= 160 * 9_007_199_254_740_992,
        0 <= visible_height(display, frame) <= 160 * 9_007_199_254_740_992,
        0 <= visible_width(display, frame) * visible_height(display, frame)
            <= 0x0200_0000_0000_0000_0000_0000_0000_0000,
        frame.size.width * frame.size.height <= 0x0200_0000_0000_0000_0000_0000_0000_0000,
{
    let w = visible_width(display, frame);
    let h = visible_height(display, frame);
    assert(0 <= w * h <= 0x0200_0000_0000_0000_0000_0000_0000_0000) by (nonlinear_arith)
        requires
            0 <= w <= 160 * 9_007_199_254_740_992,
            0 <= h <= 160 * 9_007_199_254_740_992,
    ;
    let a = frame.size.width as int;
    let b = frame.size.height as int;
    assert(a * b <= 0x0200_0000_0000_0000_0000_0000_0000_0000) by (nonlinear_arith)
        requires
            -80 * 9_007_199_254_740_992 <= a <= 80 * 9_007_199_254_740_992,
            -80 * 9_007_199_254_740_992 <= b <= 80 * 9_007_199_254_740_992,
    ;
}

/// What fraction of `frame`'s area lies inside `display`, as a numerator and a denominator.
pub fn on_screen_fraction(frame: Rect, display: Rect) -> (r: (i128, i128))
    requires
        frame.inside(80),
        display.inside(80),
    ensures
        (r.0 as int, r.1 as int) == shown_share(frame, display),
        0 <= r.0,
        0 < r.1,
{
    let area: i128 = product(frame.size.width, frame.size.height);
    let (w, h): (i128, i128) = on_screen_extent(frame, display);
    if area <= 0 || w <= 0 || h <= 0 {
        return (0, 1);
    }
    proof {
        extents_are_bounded(frame, display);
    }
    (w * h, area)
}

/// How much of a window has to be on screen for the overlay to bother with it: a window being moved
/// needs a quarter, or every parked sliver becomes a tile; a window standing still needs only to be
/// visible at all, because whatever shows of it turns into wallpaper otherwise.
pub open spec fn enough_share(share: (int, int), moving: bool) -> bool {
    if moving {
        4 * share.0 >= share.1
    } else {
        share.0 > 0
    }
}

/// Whether a visible share is enough for a window that is `moving` or standing.
pub fn min_on_screen(share: (i128, i128), moving: bool) -> (r: bool)
    requires
        0 <= share.0 <= 0x0200_0000_0000_0000_0000_0000_0000_0000,
    ensures
        r == enough_share((share.0 as int, share.1 as int), moving),
{
    if moving {
        4 * share.0 >= share.1
    } else {
        share.0 > 0
    }
}

/// Enough of the window shows at `at`, where frames are counted in `scale`-ths of a thousandth.
pub open spec fn shown_enough(at: Rect, display: Rect, moving: bool, scale: int) -> bool {
    ||| enough_share(shown_share(at, display), moving)
    ||| (moving && lesser(visible_width(display, at), visible_height(display, at)) >= scale
        * 80_000)
}

fn shows_enough_at(at: Rect, display: Rect, moving: bool, scale: u8) -> (r: bool)
    requires
        at.inside(80),
        display.inside(80),
    ensures
        r == shown_enough(at, display, moving, scale as int),
{
    proof {
        extents_are_bounded(at, display);
    }
    let share: (i128, i128) = on_screen_fraction(at, display);
    if min_on_screen(share, moving) {
        return true;
    }
    let (w, h): (i128, i128) = on_screen_extent(at, display);
    let shorter: i128 = if w <= h {
        w
    } else {
        h
    };
    moving && shorter >= scale as i128 * 80_000
}

/// Whether enough of the window shows at `at` for a tile to be worth drawing there.
pub fn shows_enough(at: Rect, display: Rect, moving: bool) -> (r: bool)
    requires
        at.inside(80),
        display.inside(80),
    ensures
        r == shown_enough(at, display, moving, 1),
{
    shows_enough_at(at, display, moving, 1)
}

/// Some coordinate changes by half a point or more.
pub open spec fn moves(from: Rect, to: Rect) -> bool {
    ||| distance(to.origin.x - from.origin.x) >= 500
    ||| distance(to.origin.y - from.origin.y) >= 500
    ||| distance(to.size.width - from.size.width) >= 500
    ||| distance(to.size.height - from.size.height) >= 500
}

/// Whether a request actually moves its window.
///
/// Requests with the same start and end are there to be drawn, not moved. Half a point, because the
/// layout rounds to whole points.
pub fn is_moving(from: Rect, to: Rect) -> (r: bool)
    ensures
        r == moves(from, to),
{
    distance_between(to.origin.x, from.origin.x) >= 500 || distance_between(
        to.origin.y,
        from.origin.y,
    ) >= 500 || distance_between(to.size.width, from.size.width) >= 500 || distance_between(
        to.size.height,
        from.size.height,
    ) >= 500
}

/// `frame` counted in tenths of its unit.
pub open spec fn in_tenths(frame: Rect) -> Rect {
    lerped(frame, frame, 0, 10)
}

/// The window shows enough at one of the eleven places of its path, a tenth of the way apart.
pub open spec fn worthwhile(from: Rect, to: Rect, display: Rect) -> bool {
    &&& from.size.width * from.size.height > 0
    &&& exists|step: int|
        0 <= step < 11 && #[trigger] shown_enough(
            lerped(from, to, step, 10),
            in_tenths(display),
            moves(from, to),
            10,
        )
}

/// Does a window travelling `from` to `to` appear on `display` at any point? The whole path is
/// sampled, not just its ends: a window sweeping across mid-animation is exactly what conveys how
/// far the strip travelled.
pub fn worth_animating(from: Rect, to: Rect, display: Rect) -> (r: bool)
    requires
        from.inside(8),
        to.inside(8),
        display.inside(8),
    ensures
        r == worthwhile(from, to, display),
{
    if product(from.size.width, from.size.height) <= 0 {
        return false;
    }
    let moving: bool = is_moving(from, to);
    let screen: Rect = lerp_rect(display, display, 0, 10);
    let mut step: u8 = 0;
    while step < SAMPLES
        invariant
            step <= SAMPLES,
            SAMPLES == 11,
            from.inside(8),
            to.inside(8),
            screen.inside(80),
            screen == in_tenths(display),
            moving == moves(from, to),
            from.size.width * from.size.height > 0,
            forall|i: int|
                0 <= i < step ==> !#[trigger] shown_enough(
                    lerped(from, to, i, 10),
                    in_tenths(display),
                    moves(from, to),
                    10,
                ),
        decreases SAMPLES - step,
    {
        let at: Rect = lerp_rect(from, to, step, 10);
        if shows_enough_at(at, screen, moving, 10) {
            assert(shown_enough(
                lerped(from, to, step as int, 10),
                in_tenths(display),
                moves(from, to),
                10,
            ));
            return true;
        }
        step += 1;
    }
    false
}

/// `frame` moved by `by`, same size.
pub fn translated(frame: Rect, by: Point) -> (r: Rect)
    requires
        frame.inside(4),
        by.inside(4),
    ensures
        r == frame.moved(by.x as int, by.y as int),
{
    frame.translated(by)
}

/// The window sits at its destination, yet its request asks for motion.
pub open spec fn synthetic_start(actual: Rect, from: Rect, to: Rect) -> bool {
    same_frame(actual, to) && !same_frame(from, to)
}

/// Is a request's start a deliberate fiction rather than drift to correct?
///
/// A window already sitting at its destination has no drift, so a request that still asks for
/// motion can only be a synthetic start. Overriding it with the real frame would make `from` equal
/// `to`, which silently kills the whole movement.
pub fn start_is_synthetic(actual: Rect, from: Rect, to: Rect) -> (r: bool)
    ensures
        r == synthetic_start(actual, from, to),
{
    actual.same_as(to) && !from.same_as(to)
}

/// Where a tile starts, from the window server's answer `actual`, the request and the vector its
/// neighbours make.
pub open spec fn start_of(
    actual: Option<Rect>,
    from: Rect,
    to: Rect,
    display: Rect,
    travel: Option<Point>,
) -> Rect {
    let parked_actual = actual is Some && off_screen(display, actual->0);
    if parked_actual || off_screen(display, from) {
        match travel {
            Some(d) => to.moved(-d.x, -d.y),
            None => entry_frame(
                if parked_actual {
                    actual->0
                } else {
                    from
                },
                to,
                display,
            ),
        }
    } else {
        let stands = if actual is Some {
            actual->0
        } else {
            from
        };
        if synthetic_start(stands, from, to) {
            from
        } else {
            stands
        }
    }
}

/// The tile's start from the window server's answer (`actual`, `None` when it had none) and the
/// request's `from` and `to`.
///
/// A parked window comes back along the strip's own movement: `to` translated back by `travel`, the
/// vector its neighbours make this pass. Without a moving neighbour it enters from the display edge
/// on the park's side. A park is judged from both frames, before the synthetic test.
pub fn resolve_start(
    actual: Option<Rect>,
    from: Rect,
    to: Rect,
    display: Rect,
    travel: Option<Point>,
) -> (r: Rect)
    requires
        actual matches Some(frame) ==> frame.inside(1),
        from.inside(1),
        to.inside(1),
        display.inside(1),
        travel matches Some(d) ==> d.inside(2),
    ensures
        r == start_of(actual, from, to, display, travel),
        r.inside(3),
        r.size.inside(1),
{
    let parked_actual: bool = match actual {
        Some(frame) => is_off_screen(display, frame),
        None => false,
    };
    let parked_from: bool = is_off_screen(display, from);
    let stands: Rect = match actual {
        Some(frame) => frame,
        None => from,
    };
    if parked_actual || parked_from {
        return match travel {
            Some(d) => to.translated(Point { x: -d.x, y: -d.y }),
            None => {
                let park: Rect = if parked_actual {
                    stands
                } else {
                    from
                };
                park_entry_frame(park, to, display)
            },
        };
    }
    if start_is_synthetic(stands, from, to) {
        return from;
    }
    stands
}

/// Where a tile is drawn to: with the strip, or past the edge, when its window leaves for a park.
pub open spec fn end_of(start: Rect, to: Rect, display: Rect, travel: Option<Point>) -> Rect {
    if off_screen(display, to) && !off_screen(display, start) {
        match travel {
            Some(d) => start.moved(d.x as int, d.y as int),
            None => entry_frame(to, start, display),
        }
    } else {
        to
    }
}

/// The tile's visual destination: a window leaving for a corner park travels with the strip, `start`
/// translated by `travel`, the mirror of [`resolve_start`]. With no moving neighbour it exits past
/// the display edge on the park's side.
pub fn resolve_end(start: Rect, to: Rect, display: Rect, travel: Option<Point>) -> (r: Rect)
    requires
        start.inside(3),
        to.inside(1),
        display.inside(1),
        travel matches Some(d) ==> d.inside(2),
    ensures
        r == end_of(start, to, display, travel),
        r.inside(5),
{
    if is_off_screen(display, to) && !is_off_screen(display, start) {
        return match travel {
            Some(d) => start.translated(d),
            None => park_entry_frame(to, start, display),
        };
    }
    to
}

/// A strip window on screen at both ends whose origin actually moves: one with travel to lend. A
/// window that only resizes has none.
pub open spec fn lends(other: (Rect, Rect, bool), display: Rect) -> bool {
    &&& !other.2
    &&& !off_screen(display, other.0)
    &&& !off_screen(display, other.1)
    &&& (distance(other.1.origin.x - other.0.origin.x) >= 500 || distance(
        other.1.origin.y - other.0.origin.y,
    ) >= 500)
}

/// Twice the distance between the middles of two frames, across.
pub open spec fn apart(a: Rect, b: Rect) -> int {
    distance((a.left() + a.right()) - (b.left() + b.right()))
}

/// The first of the nearest lenders stands at `i`.
pub open spec fn nearest_lender(
    subject: Rect,
    others: Seq<(Rect, Rect, bool)>,
    display: Rect,
    i: int,
) -> bool {
    &&& 0 <= i < others.len()
    &&& lends(others[i], display)
    &&& forall|j: int|
        0 <= j < others.len() && #[trigger] lends(others[j], display) ==> apart(
            others[i].0,
            subject,
        ) <= apart(others[j].0, subject)
    &&& forall|j: int|
        0 <= j < i && #[trigger] lends(others[j], display) ==> apart(others[i].0, subject) < apart(
            others[j].0,
            subject,
        )
}

/// From `from` to `to`, as a vector.
pub open spec fn vector(from: Rect, to: Rect) -> Point {
    Point { x: (to.origin.x - from.origin.x) as i64, y: (to.origin.y - from.origin.y) as i64 }
}

/// The vector of the nearest lender, if there is one.
pub open spec fn lent_travel(
    subject: Rect,
    others: Seq<(Rect, Rect, bool)>,
    display: Rect,
) -> Option<Point> {
    if exists|i: int| nearest_lender(subject, others, display, i) {
        let i = choose|i: int| nearest_lender(subject, others, display, i);
        Some(vector(others[i].0, others[i].1))
    } else {
        None
    }
}

/// Only one place holds the first of the nearest lenders.
pub proof fn the_nearest_lender_is_one(
    subject: Rect,
    others: Seq<(Rect, Rect, bool)>,
    display: Rect,
    i: int,
    j: int,
)
    requires
        nearest_lender(subject, others, display, i),
        nearest_lender(subject, others, display, j),
    ensures
        i == j,
{
    assert(lends(others[i], display) && lends(others[j], display));
}

fn doubled_middle(frame: Rect) -> (r: i128)
    ensures
        r == frame.left() + frame.right(),
        3 * i64::MIN <= r <= 3 * i64::MAX,
{
    frame.origin.x as i128 + frame.max_x()
}

/// The vector the rigid strip moves by this pass, as the window at `subject` sees it: the travel of
/// the nearest (by the middle of where it starts) strip window that is on screen at both ends and
/// actually moves. `None` when no such neighbour exists, which is the edge fallback's cue. `others`
/// is `(from, to, floating)` for every other request of the pass.
///
/// Sharing the neighbour's vector is what makes a displaced window and the one beside it one body:
/// aimed at the display edge, the two would run at different speeds and overlap.
pub fn neighbour_travel(subject: Rect, others: &Vec<(Rect, Rect, bool)>, display: Rect) -> (r:
    Option<Point>)
    requires
        forall|i: int|
            0 <= i < others.len() ==> (#[trigger] others[i]).0.inside(1) && others[i].1.inside(1),
    ensures
        r == lent_travel(subject, others@, display),
        r is Some <==> exists|i: int|
            0 <= i < others.len() && #[trigger] lends(others[i], display),
        r matches Some(d) ==> d.inside(2),
{
    let mut best: Option<usize> = None;
    let mut best_apart: i128 = 0;
    let middle: i128 = doubled_middle(subject);
    let mut i: usize = 0;
    while i < others.len()
        invariant
            i <= others.len(),
            middle == subject.left() + subject.right(),
            3 * i64::MIN <= middle <= 3 * i64::MAX,
            match best {
                Some(b) => b < i && nearest_lender(subject, others@.take(i as int), display, b as int)
                    && best_apart == apart(others[b as int].0, subject),
                None => forall|j: int| 0 <= j < i ==> !#[trigger] lends(others[j], display),
            },
        decreases others.len() - i,
    {
        let (from, to, floating): (Rect, Rect, bool) = others[i];
        let lender: bool = !floating && !is_off_screen(display, from) && !is_off_screen(display, to)
            && (distance_between(to.origin.x, from.origin.x) >= 500 || distance_between(
            to.origin.y,
            from.origin.y,
        ) >= 500);
        let gap: i128 = doubled_middle(from) - middle;
        let far: i128 = if gap < 0 {
            -gap
        } else {
            gap
        };
        let nearer: bool = match best {
            Some(_) => far < best_apart,
            None => true,
        };
        let ghost seen = others@.take(i as int);
        let ghost seen_now = others@.take(i + 1);
        assert forall|j: int| 0 <= j < i implies seen_now[j] == seen[j] && #[trigger] seen[j]
            == others[j] by {}
        assert(seen_now[i as int] == others[i as int]);
        if lender && nearer {
            assert(nearest_lender(subject, seen_now, display, i as int)) by {
                assert forall|j: int| 0 <= j < i && #[trigger] lends(
                    seen_now[j],
                    display,
                ) implies far < apart(seen_now[j].0, subject) by {
                    if best is Some {
                        assert(lends(seen[j], display));
                    } else {
                        assert(lends(others[j], display));
                    }
                }
            }
            best = Some(i);
            best_apart = far;
        } else {
            proof {
                if let Some(b) = best {
                    let b = b as int;
                    assert(nearest_lender(subject, seen_now, display, b)) by {
                        assert forall|j: int|
                            0 <= j < seen_now.len() && #[trigger] lends(
                                seen_now[j],
                                display,
                            ) implies apart(seen_now[b].0, subject) <= apart(
                            seen_now[j].0,
                            subject,
                        ) by {
                            if j < i {
                                assert(lends(seen[j], display));
                            }
                        }
                        assert forall|j: int| 0 <= j < b && #[trigger] lends(
                            seen_now[j],
                            display,
                        ) implies apart(seen_now[b].0, subject) < apart(
                            seen_now[j].0,
                            subject,
                        ) by {
                            assert(lends(seen[j], display));
                        }
                    }
                }
            }
        }
        i += 1;
    }
    assert(others@.take(others@.len() as int) == others@);
    match best {
        Some(b) => {
            proof {
                assert(nearest_lender(subject, others@, display, b as int));
                let c = choose|i: int| nearest_lender(subject, others@, display, i);
                the_nearest_lender_is_one(subject, others@, display, b as int, c);
                assert(lends(others[b as int], display));
            }
            let (from, to, _): (Rect, Rect, bool) = others[b];
            Some(Point { x: to.origin.x - from.origin.x, y: to.origin.y - from.origin.y })
        },
        None => {
            proof {
                if exists|i: int| nearest_lender(subject, others@, display, i) {
                    let c = choose|i: int| nearest_lender(subject, others@, display, i);
                    assert(lends(others[c], display));
                }
            }
            None
        },
    }
}

/// The frame [`neighbour_travel`] measures from for one request: the slot it leaves when its
/// destination is a park, otherwise the slot it arrives at.
pub fn travel_subject(from: Rect, to: Rect, display: Rect) -> (r: Rect)
    ensures
        r == (if off_screen(display, to) {
            from
        } else {
            to
        }),
{
    if is_off_screen(display, to) {
        from
    } else {
        to
    }
}

/// A window coming back from a park, or leaving for one, covers exactly the vector its neighbours
/// make, so it cannot drift apart from them.
pub proof fn a_displaced_window_travels_with_the_strip(
    actual: Option<Rect>,
    from: Rect,
    to: Rect,
    display: Rect,
    travel: Point,
)
    requires
        from.inside(1),
        to.inside(1),
        actual matches Some(frame) ==> frame.inside(1),
        travel.inside(2),
    ensures
        off_screen(display, from) ==> start_of(actual, from, to, display, Some(travel)).moved(
            travel.x as int,
            travel.y as int,
        ) == to,
        off_screen(display, to) && !off_screen(display, from) ==> end_of(
            from,
            to,
            display,
            Some(travel),
        ) == from.moved(travel.x as int, travel.y as int),
{
}

/// A window that left for a park past the edge comes back in from exactly where it went out: in its
/// row, at its size, by the same edge.
pub proof fn leaving_then_entering_stays_in_the_row(slot: Rect, park: Rect, display: Rect)
    requires
        slot.inside(1),
        park.inside(1),
        display.inside(1),
        off_screen(display, park),
        !off_screen(display, slot),
    ensures
        ({
            let exit = end_of(slot, park, display, None);
            let entry = start_of(Some(exit), park, slot, display, None);
            &&& entry == exit
            &&& entry.origin.y == slot.origin.y
            &&& entry.size == slot.size
        }),
{
}

/// A request that never leaves the screen keeps its destination, and starts where the window server
/// says the window is unless that is already the destination.
pub proof fn an_ordinary_move_starts_where_the_window_is(
    actual: Rect,
    from: Rect,
    to: Rect,
    display: Rect,
    travel: Option<Point>,
)
    requires
        !off_screen(display, actual),
        !off_screen(display, from),
        !same_frame(actual, to),
    ensures
        start_of(Some(actual), from, to, display, travel) == actual,
        !off_screen(display, to) ==> end_of(actual, to, display, travel) == to,
{
}

/// A standing window with anything to show is always worth drawing.
pub proof fn a_visible_standing_window_is_worth_drawing(frame: Rect, display: Rect)
    requires
        frame.inside(8),
        display.inside(8),
        frame.size.width > 0,
        frame.size.height > 0,
        visible_width(display, frame) > 0,
        visible_height(display, frame) > 0,
    ensures
        worthwhile(frame, frame, display),
{
    let at = lerped(frame, frame, 0, 10);
    let screen = in_tenths(display);
    assert(frame.size.width * frame.size.height > 0) by (nonlinear_arith)
        requires
            frame.size.width > 0,
            frame.size.height > 0,
    ;
    assert(at.size.width * at.size.height > 0) by (nonlinear_arith)
        requires
            at.size.width > 0,
            at.size.height > 0,
    ;
    let w = visible_width(screen, at);
    let h = visible_height(screen, at);
    assert(w * h > 0) by (nonlinear_arith)
        requires
            w > 0,
            h > 0,
    ;
    assert(shown_enough(lerped(frame, frame, 0, 10), screen, moves(frame, frame), 10));
}

/// A window moves when one of its four numbers changes by half a point or more, either way; carrying
/// both ends along changes nothing of that.
pub proof fn moving_takes_half_a_point(from: Rect, to: Rect, dx: int, dy: int)
    requires
        from.inside(8),
        to.inside(8),
        crate::geometry::inside(dx, 8),
        crate::geometry::inside(dy, 8),
    ensures
        !moves(from, to) <==> {
            &&& -500 < to.origin.x - from.origin.x < 500
            &&& -500 < to.origin.y - from.origin.y < 500
            &&& -500 < to.size.width - from.size.width < 500
            &&& -500 < to.size.height - from.size.height < 500
        },
        moves(from, to) == moves(to, from),
        moves(from.moved(dx, dy), to.moved(dx, dy)) == moves(from, to),
{
}

/// The share of a window on a display is that of the part the two have in common: all of a window the
/// display covers, none of one beside it.
pub proof fn a_covered_window_shows_whole(frame: Rect, display: Rect)
    requires
        frame.size.width > 0,
        frame.size.height > 0,
        display.size.width > 0,
        display.size.height > 0,
    ensures
        display.covers(frame) ==> shown_share(frame, display).0 == shown_share(frame, display).1
            && shown_share(frame, display).1 == frame.size.width * frame.size.height,
        frame.origin.x >= display.origin.x + display.size.width ==> shown_share(frame, display).0
            == 0,
        frame.origin.x + frame.size.width <= display.origin.x ==> shown_share(frame, display).0
            == 0,
        frame.origin.y >= display.origin.y + display.size.height ==> shown_share(frame, display).0
            == 0,
        frame.origin.y + frame.size.height <= display.origin.y ==> shown_share(frame, display).0
            == 0,
        shown_share(frame, display).1 > 0,
{
    assert(frame.size.width * frame.size.height > 0) by (nonlinear_arith)
        requires
            frame.size.width > 0,
            frame.size.height > 0,
    ;
}

/// A window as tall as what the display shows of it is shown in the share of its width: a window with
/// its rows on the display and `seen` of its columns shows `seen` columns out of its width.
pub proof fn a_peeking_column_shows_by_its_width(frame: Rect, display: Rect, seen: int)
    requires
        frame.size.width > 0,
        frame.size.height > 0,
        0 < seen <= frame.size.width,
        seen <= display.size.width,
        display.origin.y <= frame.origin.y,
        frame.origin.y + frame.size.height <= display.origin.y + display.size.height,
        frame.origin.x + seen == display.origin.x + display.size.width,
    ensures
        shown_share(frame, display) == (seen * frame.size.height, frame.size.width
            * frame.size.height),
        shown_enough(frame, display, false, 1),
        4 * seen >= frame.size.width ==> shown_enough(frame, display, true, 1),
        seen >= 80_000 && frame.size.height >= 80_000 ==> shown_enough(frame, display, true, 1),
        4 * seen < frame.size.width && (seen < 80_000 || frame.size.height < 80_000)
            ==> !shown_enough(frame, display, true, 1),
{
    let (w, h) = (frame.size.width as int, frame.size.height as int);
    assert(w * h > 0 && seen * h > 0) by (nonlinear_arith)
        requires
            w > 0,
            h > 0,
            seen > 0,
    ;
    assert(4 * seen >= w ==> 4 * (seen * h) >= w * h) by (nonlinear_arith)
        requires
            h > 0,
    ;
    assert(4 * seen < w ==> 4 * (seen * h) < w * h) by (nonlinear_arith)
        requires
            h > 0,
    ;
}

/// What is drawn does not depend on the direction: a path and its way back are worth the same.
pub proof fn a_path_is_worth_its_way_back(from: Rect, to: Rect, display: Rect)
    requires
        from.inside(8),
        to.inside(8),
        display.inside(8),
        from.size.width > 0,
        from.size.height > 0,
        to.size.width > 0,
        to.size.height > 0,
    ensures
        worthwhile(from, to, display) == worthwhile(to, from, display),
{
    assert(from.size.width * from.size.height > 0) by (nonlinear_arith)
        requires
            from.size.width > 0,
            from.size.height > 0,
    ;
    assert(to.size.width * to.size.height > 0) by (nonlinear_arith)
        requires
            to.size.width > 0,
            to.size.height > 0,
    ;
    worth_there(from, to, display);
    worth_there(to, from, display);
}

proof fn worth_there(from: Rect, to: Rect, display: Rect)
    requires
        from.inside(8),
        to.inside(8),
        to.size.width * to.size.height > 0,
    ensures
        worthwhile(from, to, display) ==> worthwhile(to, from, display),
{
    if worthwhile(from, to, display) {
        let step = choose|step: int|
            0 <= step < 11 && #[trigger] shown_enough(
                lerped(from, to, step, 10),
                in_tenths(display),
                moves(from, to),
                10,
            );
        crate::tile::lerp_goes_evenly(from, to, step, 10);
        assert(shown_enough(
            lerped(to, from, 10 - step, 10),
            in_tenths(display),
            moves(to, from),
            10,
        ));
    }
}

/// Shown at either end is worth drawing: a window that shows enough where it starts or where it ends
/// is drawn, whatever lies between.
pub proof fn an_end_that_shows_is_worth_drawing(from: Rect, to: Rect, display: Rect)
    requires
        from.inside(8),
        to.inside(8),
        display.inside(8),
        from.size.width > 0,
        from.size.height > 0,
        shown_enough(from, display, moves(from, to), 1) || shown_enough(
            to,
            display,
            moves(from, to),
            1,
        ),
    ensures
        worthwhile(from, to, display),
{
    assert(from.size.width * from.size.height > 0) by (nonlinear_arith)
        requires
            from.size.width > 0,
            from.size.height > 0,
    ;
    crate::tile::lerp_goes_evenly(from, to, 0, 10);
    crate::tile::lerp_goes_evenly(from, to, 10, 10);
    crate::tile::lerp_goes_evenly(display, display, 0, 10);
    tenths_show_alike(from, lerped(from, to, 0, 10), display, moves(from, to));
    tenths_show_alike(to, lerped(from, to, 10, 10), display, moves(from, to));
    assert(shown_enough(from, display, moves(from, to), 1) ==> shown_enough(
        lerped(from, to, 0, 10),
        in_tenths(display),
        moves(from, to),
        10,
    ));
}

proof fn tenths_show_alike(frame: Rect, tenths: Rect, display: Rect, moving: bool)
    requires
        frame.inside(8),
        display.inside(8),
        tenths.origin.x == 10 * frame.origin.x,
        tenths.origin.y == 10 * frame.origin.y,
        tenths.size.width == 10 * frame.size.width,
        tenths.size.height == 10 * frame.size.height,
    ensures
        shown_enough(tenths, in_tenths(display), moving, 10) == shown_enough(
            frame,
            display,
            moving,
            1,
        ),
{
    let screen = in_tenths(display);
    crate::tile::lerp_goes_evenly(display, display, 0, 10);
    let (w, h) = (visible_width(display, frame), visible_height(display, frame));
    assert(visible_width(screen, tenths) == 10 * w);
    assert(visible_height(screen, tenths) == 10 * h);
    assert((10 * w) * (10 * h) == 100 * (w * h)) by (nonlinear_arith);
    let (a, b) = (frame.size.width as int, frame.size.height as int);
    assert((10 * a) * (10 * b) == 100 * (a * b)) by (nonlinear_arith);
}

/// A window that stays on one side of the display all the way, or has no extent, is not drawn.
pub proof fn a_path_beside_the_display_is_not_drawn(from: Rect, to: Rect, display: Rect)
    requires
        from.inside(8),
        to.inside(8),
        display.inside(8),
        from.size.width >= 0,
        from.size.height >= 0,
        to.size.width >= 0,
        to.size.height >= 0,
        ({
            let right = display.origin.x + display.size.width;
            let bottom = display.origin.y + display.size.height;
            ||| from.size.width == 0 || from.size.height == 0
            ||| from.origin.x >= right && to.origin.x >= right
            ||| from.origin.y >= bottom && to.origin.y >= bottom
            ||| from.origin.x + from.size.width <= display.origin.x && to.origin.x + to.size.width
                <= display.origin.x
            ||| from.origin.y + from.size.height <= display.origin.y && to.origin.y
                + to.size.height <= display.origin.y
        }),
    ensures
        !worthwhile(from, to, display),
{
    if from.size.width == 0 || from.size.height == 0 {
        assert(from.size.width * from.size.height == 0) by (nonlinear_arith)
            requires
                from.size.width == 0 || from.size.height == 0,
        ;
    } else if worthwhile(from, to, display) {
        let step = choose|step: int|
            0 <= step < 11 && #[trigger] shown_enough(
                lerped(from, to, step, 10),
                in_tenths(display),
                moves(from, to),
                10,
            );
        crate::tile::lerp_goes_evenly(from, to, step, 10);
        crate::tile::lerp_goes_evenly(display, display, 0, 10);
        let at = lerped(from, to, step, 10);
        stays_beside(
            (from.origin.x as int, from.size.width as int),
            (to.origin.x as int, to.size.width as int),
            (display.origin.x as int, display.origin.x + display.size.width),
            step,
        );
        stays_beside(
            (from.origin.y as int, from.size.height as int),
            (to.origin.y as int, to.size.height as int),
            (display.origin.y as int, display.origin.y + display.size.height),
            step,
        );
        assert(visible_width(in_tenths(display), at) <= 0 || visible_height(in_tenths(display), at)
            <= 0);
        assert(at.size.width * at.size.height >= 0) by (nonlinear_arith)
            requires
                at.size.width >= 0,
                at.size.height >= 0,
        ;
    }
}

proof fn stays_beside(a: (int, int), b: (int, int), span: (int, int), step: int)
    requires
        0 <= step <= 10,
        a.1 >= 0,
        b.1 >= 0,
    ensures
        ({
            let at = a.0 * (10 - step) + b.0 * step;
            let extent = a.1 * (10 - step) + b.1 * step;
            &&& extent >= 0
            &&& a.0 >= span.1 && b.0 >= span.1 ==> at >= 10 * span.1
            &&& a.0 + a.1 <= span.0 && b.0 + b.1 <= span.0 ==> at + extent <= 10 * span.0
        }),
{
    not_below(a.1, b.1, 0, step);
    if a.0 >= span.1 && b.0 >= span.1 {
        not_below(a.0, b.0, span.1, step);
    }
    if a.0 + a.1 <= span.0 && b.0 + b.1 <= span.0 {
        not_below(-(a.0 + a.1), -(b.0 + b.1), -span.0, step);
        assert(-(a.0 + a.1) * (10 - step) + -(b.0 + b.1) * step == -(a.0 * (10 - step) + b.0 * step
            + a.1 * (10 - step) + b.1 * step)) by (nonlinear_arith);
    }
}

proof fn not_below(a: int, b: int, least: int, step: int)
    requires
        0 <= step <= 10,
        a >= least,
        b >= least,
    ensures
        a * (10 - step) + b * step >= 10 * least,
{
    assert(a * (10 - step) >= least * (10 - step)) by (nonlinear_arith)
        requires
            a >= least,
            step <= 10,
    ;
    assert(b * step >= least * step) by (nonlinear_arith)
        requires
            b >= least,
            0 <= step,
    ;
    assert(least * (10 - step) + least * step == 10 * least) by (nonlinear_arith);
}

/// A window the server shows on screen starts there; without an answer it starts where the request
/// says; and a request that asks a window already in place to move starts where the request says.
pub proof fn a_window_on_screen_starts_where_it_is(
    actual: Option<Rect>,
    from: Rect,
    to: Rect,
    display: Rect,
    travel: Option<Point>,
)
    requires
        !off_screen(display, from),
        actual matches Some(frame) ==> !off_screen(display, frame),
    ensures
        actual is None ==> start_of(actual, from, to, display, travel) == from,
        actual matches Some(frame) ==> {
            &&& same_frame(frame, to) && !same_frame(from, to) ==> start_of(
                actual,
                from,
                to,
                display,
                travel,
            ) == from
            &&& !same_frame(frame, to) || same_frame(from, to) ==> start_of(
                actual,
                from,
                to,
                display,
                travel,
            ) == frame
        },
{
}

/// A parked window, by either frame, starts a whole travel short of its destination; with no travel
/// to share it starts just outside the display, in its row, on the side it is parked.
pub proof fn a_parked_window_comes_back_in_its_row(
    actual: Option<Rect>,
    from: Rect,
    to: Rect,
    display: Rect,
    travel: Option<Point>,
)
    requires
        from.inside(1),
        to.inside(1),
        display.inside(1),
        actual matches Some(frame) ==> frame.inside(1),
        travel matches Some(d) ==> d.inside(2),
        off_screen(display, from) || (actual is Some && off_screen(display, actual->0)),
    ensures
        ({
            let start = start_of(actual, from, to, display, travel);
            let park = if actual is Some && off_screen(display, actual->0) {
                actual->0
            } else {
                from
            };
            &&& start.size == to.size
            &&& travel matches Some(d) ==> start.origin.x + d.x == to.origin.x && start.origin.y
                + d.y == to.origin.y
            &&& travel is None ==> {
                &&& start.origin.y == to.origin.y
                &&& 2 * park.origin.x + park.size.width < 2 * display.origin.x
                    + display.size.width ==> start.origin.x + start.size.width
                    == display.origin.x
                &&& 2 * park.origin.x + park.size.width >= 2 * display.origin.x
                    + display.size.width ==> start.origin.x == display.origin.x
                    + display.size.width
            }
        }),
{
}

/// A destination on screen is where the tile ends. A window leaving the screen ends a whole travel
/// from where it starts; with no travel to share, just outside the display, in its row, on the side
/// it will be parked. Either way it keeps its size.
pub proof fn a_window_ends_at_its_destination_or_leaves_in_its_row(
    start: Rect,
    to: Rect,
    display: Rect,
    travel: Option<Point>,
)
    requires
        start.inside(3),
        to.inside(1),
        display.inside(1),
        travel matches Some(d) ==> d.inside(2),
    ensures
        ({
            let end = end_of(start, to, display, travel);
            &&& !off_screen(display, to) ==> end == to
            &&& off_screen(display, start) ==> end == to
            &&& off_screen(display, to) && !off_screen(display, start) ==> {
                &&& end.size == start.size
                &&& travel matches Some(d) ==> end.origin.x == start.origin.x + d.x && end.origin.y
                    == start.origin.y + d.y
                &&& travel is None ==> {
                    &&& end.origin.y == start.origin.y
                    &&& 2 * to.origin.x + to.size.width < 2 * display.origin.x
                        + display.size.width ==> end.origin.x + end.size.width
                        == display.origin.x
                    &&& 2 * to.origin.x + to.size.width >= 2 * display.origin.x
                        + display.size.width ==> end.origin.x == display.origin.x
                        + display.size.width
                }
            }
        }),
{
}

/// Only a window of the strip that shows at both ends and is carried by half a point or more has a
/// travel to lend.
pub proof fn a_lender_is_carried_on_screen(other: (Rect, Rect, bool), display: Rect)
    ensures
        other.2 ==> !lends(other, display),
        off_screen(display, other.0) || off_screen(display, other.1) ==> !lends(other, display),
        -500 < other.1.origin.x - other.0.origin.x < 500 && -500 < other.1.origin.y
            - other.0.origin.y < 500 ==> !lends(other, display),
        !other.2 && !off_screen(display, other.0) && !off_screen(display, other.1) && (
        other.1.origin.x - other.0.origin.x >= 500 || other.0.origin.x - other.1.origin.x >= 500
            || other.1.origin.y - other.0.origin.y >= 500 || other.0.origin.y - other.1.origin.y
            >= 500) ==> lends(other, display),
{
}

/// The travel lent is a lender's own, from its start to its end, and no lender starts nearer to the
/// window, middle to middle. Where every lender makes one travel, that is what is lent.
pub proof fn the_travel_lent_is_the_nearest_lenders(
    subject: Rect,
    others: Seq<(Rect, Rect, bool)>,
    display: Rect,
    k: int,
)
    requires
        forall|i: int|
            0 <= i < others.len() ==> (#[trigger] others[i]).0.inside(1) && others[i].1.inside(1),
        0 <= k < others.len(),
        lends(others[k], display),
    ensures
        ({
            let lent = lent_travel(subject, others, display);
            &&& lent is Some
            &&& exists|i: int|
                {
                    &&& 0 <= i < others.len()
                    &&& lends(#[trigger] others[i], display)
                    &&& lent->0.x == others[i].1.origin.x - others[i].0.origin.x
                    &&& lent->0.y == others[i].1.origin.y - others[i].0.origin.y
                    &&& distance(
                        (2 * others[i].0.origin.x + others[i].0.size.width) - (2 * subject.origin.x
                            + subject.size.width),
                    ) <= distance(
                        (2 * others[k].0.origin.x + others[k].0.size.width) - (2 * subject.origin.x
                            + subject.size.width),
                    )
                }
        }),
{
    some_lender_is_nearest(subject, others, display, others.len() as int, k);
    assert(others.take(others.len() as int) == others);
    let i = choose|i: int| nearest_lender(subject, others, display, i);
    assert(nearest_lender(subject, others, display, i));
    assert(others[i].0.inside(1) && others[i].1.inside(1));
    assert(lends(others[k], display));
}

/// Without a lender there is no travel.
pub proof fn nothing_is_lent_without_a_lender(
    subject: Rect,
    others: Seq<(Rect, Rect, bool)>,
    display: Rect,
)
    requires
        forall|i: int| 0 <= i < others.len() ==> !#[trigger] lends(others[i], display),
    ensures
        lent_travel(subject, others, display) is None,
{
    if exists|i: int| nearest_lender(subject, others, display, i) {
        let i = choose|i: int| nearest_lender(subject, others, display, i);
        assert(lends(others[i], display));
    }
}

proof fn some_lender_is_nearest(
    subject: Rect,
    others: Seq<(Rect, Rect, bool)>,
    display: Rect,
    n: int,
    k: int,
)
    requires
        0 <= k < n <= others.len(),
        lends(others[k], display),
    ensures
        exists|i: int| nearest_lender(subject, others.take(n), display, i),
    decreases n,
{
    let now = others.take(n);
    let before = others.take(n - 1);
    assert forall|j: int| 0 <= j < n - 1 implies before[j] == #[trigger] now[j] by {}
    assert(now[k] == others[k]);
    assert(now[n - 1] == others[n - 1]);
    if exists|j: int| 0 <= j < n - 1 && #[trigger] lends(others[j], display) {
        let j = choose|j: int| 0 <= j < n - 1 && #[trigger] lends(others[j], display);
        some_lender_is_nearest(subject, others, display, n - 1, j);
        let b = choose|i: int| nearest_lender(subject, before, display, i);
        assert(nearest_lender(subject, before, display, b));
        if lends(now[n - 1], display) && apart(now[n - 1].0, subject) < apart(now[b].0, subject) {
            assert forall|j: int| 0 <= j < n - 1 && #[trigger] lends(now[j], display) implies apart(
                now[n - 1].0,
                subject,
            ) < apart(now[j].0, subject) by {
                assert(lends(before[j], display));
            }
            assert(nearest_lender(subject, now, display, n - 1));
        } else {
            assert forall|j: int| 0 <= j < n && #[trigger] lends(now[j], display) implies apart(
                now[b].0,
                subject,
            ) <= apart(now[j].0, subject) by {
                if j < n - 1 {
                    assert(lends(before[j], display));
                }
            }
            assert forall|j: int| 0 <= j < b && #[trigger] lends(now[j], display) implies apart(
                now[b].0,
                subject,
            ) < apart(now[j].0, subject) by {
                assert(lends(before[j], display));
            }
            assert(nearest_lender(subject, now, display, b));
        }
    } else {
        assert(k == n - 1);
        assert forall|j: int| 0 <= j < n - 1 implies !#[trigger] lends(now[j], display) by {
            assert(!lends(others[j], display));
        }
        assert(nearest_lender(subject, now, display, n - 1));
    }
}

/// The whole path is looked at, a tenth at a time: a window that shows enough at any of these places
/// is worth drawing, and one that is worth drawing shows enough at one of them.
pub proof fn a_place_on_the_way_that_shows_is_worth_drawing(
    from: Rect,
    to: Rect,
    display: Rect,
    at: Rect,
    step: int,
)
    requires
        from.inside(8),
        to.inside(8),
        display.inside(8),
        at.inside(8),
        from.size.width > 0,
        from.size.height > 0,
        0 <= step <= 10,
        10 * at.origin.x == from.origin.x * (10 - step) + to.origin.x * step,
        10 * at.origin.y == from.origin.y * (10 - step) + to.origin.y * step,
        10 * at.size.width == from.size.width * (10 - step) + to.size.width * step,
        10 * at.size.height == from.size.height * (10 - step) + to.size.height * step,
    ensures
        shown_enough(at, display, moves(from, to), 1) ==> worthwhile(from, to, display),
        worthwhile(from, to, display) ==> exists|k: int|
            0 <= k <= 10 && #[trigger] shown_enough(
                lerped(from, to, k, 10),
                in_tenths(display),
                moves(from, to),
                10,
            ),
{
    assert(from.size.width * from.size.height > 0) by (nonlinear_arith)
        requires
            from.size.width > 0,
            from.size.height > 0,
    ;
    crate::tile::lerp_goes_evenly(from, to, step, 10);
    tenths_show_alike(at, lerped(from, to, step, 10), display, moves(from, to));
}

/// Of several lenders as near the first lends.
pub proof fn the_first_of_the_nearest_lends(
    subject: Rect,
    others: Seq<(Rect, Rect, bool)>,
    display: Rect,
    k: int,
)
    requires
        0 <= k < others.len(),
        others[k].0.inside(1),
        others[k].1.inside(1),
        lends(others[k], display),
        forall|j: int|
            0 <= j < others.len() && lends(#[trigger] others[j], display) ==> distance(
                (2 * others[k].0.origin.x + others[k].0.size.width) - (2 * subject.origin.x
                    + subject.size.width),
            ) <= distance(
                (2 * others[j].0.origin.x + others[j].0.size.width) - (2 * subject.origin.x
                    + subject.size.width),
            ),
        forall|j: int|
            0 <= j < k && lends(#[trigger] others[j], display) ==> distance(
                (2 * others[k].0.origin.x + others[k].0.size.width) - (2 * subject.origin.x
                    + subject.size.width),
            ) < distance(
                (2 * others[j].0.origin.x + others[j].0.size.width) - (2 * subject.origin.x
                    + subject.size.width),
            ),
    ensures
        ({
            let lent = lent_travel(subject, others, display);
            &&& lent is Some
            &&& lent->0.x == others[k].1.origin.x - others[k].0.origin.x
            &&& lent->0.y == others[k].1.origin.y - others[k].0.origin.y
        }),
{
    assert(nearest_lender(subject, others, display, k));
    let c = choose|i: int| nearest_lender(subject, others, display, i);
    the_nearest_lender_is_one(subject, others, display, k, c);
}

/// A window that the display covers shows enough wherever it goes; one beside it never does.
pub proof fn a_covered_window_shows_enough(at: Rect, display: Rect, moving: bool, shows: bool)
    requires
        at.inside(80),
        display.inside(80),
        at.size.width > 0,
        at.size.height > 0,
        display.size.width > 0,
        display.size.height > 0,
        call_ensures(shows_enough, (at, display, moving), shows),
    ensures
        display.covers(at) ==> shows,
        at.origin.x >= display.origin.x + display.size.width ==> !shows,
        at.origin.y >= display.origin.y + display.size.height ==> !shows,
{
    a_covered_window_shows_whole(at, display);
    assert(at.size.width * at.size.height > 0) by (nonlinear_arith)
        requires
            at.size.width > 0,
            at.size.height > 0,
    ;
}

} // verus!
