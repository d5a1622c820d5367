//! Which final-frame writes go out to the apps, and in what order.
use vstd::prelude::*;
use vstd::seq_lib::*;

use crate::geometry::{
    is_off_screen, off_screen, shared_span, visible_height, visible_width, Rect,
};
use crate::ids::WindowId;

verus! {

/// The frames that end where they can be seen, in the order given.
pub open spec fn on_screen(frames: Seq<(WindowId, Rect)>, display: Rect) -> Seq<(WindowId, Rect)>
    decreases frames.len(),
{
    if frames.len() == 0 {
        Seq::empty()
    } else {
        let before = on_screen(frames.drop_last(), display);
        if off_screen(display, frames.last().1) {
            before
        } else {
            before.push(frames.last())
        }
    }
}

/// The frames that end off screen, in the order given.
pub open spec fn parked(frames: Seq<(WindowId, Rect)>, display: Rect) -> Seq<(WindowId, Rect)>
    decreases frames.len(),
{
    if frames.len() == 0 {
        Seq::empty()
    } else {
        let before = parked(frames.drop_last(), display);
        if off_screen(display, frames.last().1) {
            before.push(frames.last())
        } else {
            before
        }
    }
}

/// The order the overlay's final frames go out to the apps: on-screen destinations first, parks
/// last, each class in the order given. Every write is a round trip, so a park nobody will see must
/// not delay a slot everybody will.
pub fn frame_send_order(frames: Vec<(WindowId, Rect)>, display: Rect) -> (order: Vec<
    (WindowId, Rect),
>)
    ensures
        order@ == on_screen(frames@, display) + parked(frames@, display),
{
    let mut order: Vec<(WindowId, Rect)> = Vec::new();
    let mut last: Vec<(WindowId, Rect)> = Vec::new();
    let mut i: usize = 0;
    while i < frames.len()
        invariant
            i <= frames@.len(),
            order@ == on_screen(frames@.take(i as int), display),
            last@ == parked(frames@.take(i as int), display),
        decreases frames@.len() - i,
    {
        assert(frames@.take(i + 1).drop_last() == frames@.take(i as int));
        let frame = frames[i];
        if is_off_screen(display, frame.1) {
            last.push(frame);
        } else {
            order.push(frame);
        }
        i += 1;
    }
    assert(frames@.take(frames@.len() as int) == frames@);
    order.append(&mut last);
    order
}

/// A park: a sliver still touching the display, never a frame wholly off it.
pub open spec fn is_park(frame: Rect, display: Rect) -> bool {
    off_screen(display, frame) && visible_width(display, frame) > 0 && visible_height(
        display,
        frame,
    ) > 0
}

fn parks(frame: Rect, display: Rect) -> (park: bool)
    ensures
        park == is_park(frame, display),
{
    let width: i128 = shared_span(
        frame.origin.x as i128,
        frame.max_x(),
        display.origin.x as i128,
        display.max_x(),
    );
    let height: i128 = shared_span(
        frame.origin.y as i128,
        frame.max_y(),
        display.origin.y as i128,
        display.max_y(),
    );
    is_off_screen(display, frame) && width > 0 && height > 0
}

/// A write that moves a window from one park to another: nothing anyone can see changes, and every
/// such write makes the app repaint while the overlay is flying.
///
/// A workspace switch leaves its departing row a full display height below, which the system clamps
/// to a band along the bottom edge, and the pass that follows is what moves that band into the
/// corner. Such a row is no park, and its write goes out.
pub fn is_park_to_park(current: Rect, target: Rect, display: Rect) -> (skipped: bool)
    ensures
        skipped == (is_park(current, display) && is_park(target, display)),
{
    parks(current, display) && parks(target, display)
}

/// Whether a final-frame write must go out, judged from where the window server says the window is.
/// No real frame means the write cannot be ruled out, so it goes.
pub fn frame_write_needed(real_frame: Option<Rect>, target: Rect, display: Rect) -> (needed: bool)
    ensures
        needed == match real_frame {
            Some(frame) => !(is_park(frame, display) && is_park(target, display)),
            None => true,
        },
{
    match real_frame {
        Some(frame) => !is_park_to_park(frame, target, display),
        None => true,
    }
}

/// The order sent holds the frames given, each as often as it was given, and no park stands in front
/// of a frame on screen.
pub proof fn every_frame_is_sent_once_and_parks_last(frames: Seq<(WindowId, Rect)>, display: Rect)
    ensures
        ({
            let order = on_screen(frames, display) + parked(frames, display);
            &&& order.to_multiset() == frames.to_multiset()
            &&& order.len() == frames.len()
            &&& forall|i: int, j: int|
                #![trigger order[i], order[j]]
                0 <= i < j < order.len() && off_screen(display, order[i].1) ==> off_screen(
                    display,
                    order[j].1,
                )
        }),
    decreases frames.len(),
{
    the_classes_are_apart(frames, display);
    let seen = on_screen(frames, display);
    let hidden = parked(frames, display);
    if frames.len() == 0 {
        assert(seen + hidden =~= frames);
    } else {
        let rest = frames.drop_last();
        let last = frames.last();
        every_frame_is_sent_once_and_parks_last(rest, display);
        let seen_before = on_screen(rest, display);
        let hidden_before = parked(rest, display);
        assert(frames =~= rest.push(last));
        broadcast use group_to_multiset_ensures;

        lemma_multiset_commutative(seen_before, hidden_before);
        lemma_multiset_commutative(seen, hidden);
        if off_screen(display, last.1) {
            assert(hidden.to_multiset() =~= hidden_before.to_multiset().insert(last));
        } else {
            assert(seen.to_multiset() =~= seen_before.to_multiset().insert(last));
        }
        assert((seen + hidden).to_multiset() =~= rest.to_multiset().insert(last));
    }
}

proof fn the_classes_are_apart(frames: Seq<(WindowId, Rect)>, display: Rect)
    ensures
        forall|i: int|
            0 <= i < on_screen(frames, display).len() ==> !off_screen(
                display,
                (#[trigger] on_screen(frames, display)[i]).1,
            ),
        forall|i: int|
            0 <= i < parked(frames, display).len() ==> off_screen(
                display,
                (#[trigger] parked(frames, display)[i]).1,
            ),
    decreases frames.len(),
{
    if frames.len() > 0 {
        let rest = frames.drop_last();
        the_classes_are_apart(rest, display);
        let seen = on_screen(frames, display);
        assert forall|i: int| 0 <= i < seen.len() implies !off_screen(
            display,
            (#[trigger] seen[i]).1,
        ) by {
            if i < on_screen(rest, display).len() {
                assert(seen[i] == on_screen(rest, display)[i]);
            }
        }
        let hidden = parked(frames, display);
        assert forall|i: int| 0 <= i < hidden.len() implies off_screen(
            display,
            (#[trigger] hidden[i]).1,
        ) by {
            if i < parked(rest, display).len() {
                assert(hidden[i] == parked(rest, display)[i]);
            }
        }
    }
}

/// A window that is on screen is always sent to its park, and a window is always sent to a slot.
pub proof fn a_visible_change_is_always_written(real_frame: Rect, target: Rect, display: Rect)
    ensures
        !off_screen(display, real_frame) || !off_screen(display, target) ==> !(is_park(
            real_frame,
            display,
        ) && is_park(target, display)),
{
}

/// Each class keeps the order given: what is sent of two lists one after the other is, class by class,
/// that of the first, then that of the second.
pub proof fn each_class_keeps_its_order(
    frames: Seq<(WindowId, Rect)>,
    more: Seq<(WindowId, Rect)>,
    display: Rect,
    entry: (WindowId, Rect),
)
    ensures
        on_screen(frames + more, display) == on_screen(frames, display) + on_screen(more, display),
        parked(frames + more, display) == parked(frames, display) + parked(more, display),
        !off_screen(display, entry.1) ==> on_screen(seq![entry], display) == seq![entry] && parked(
            seq![entry],
            display,
        ).len() == 0,
        off_screen(display, entry.1) ==> parked(seq![entry], display) == seq![entry] && on_screen(
            seq![entry],
            display,
        ).len() == 0,
    decreases more.len(),
{
    let one = seq![entry];
    assert(one.drop_last() =~= Seq::empty());
    assert(on_screen(one.drop_last(), display) =~= Seq::empty());
    assert(parked(one.drop_last(), display) =~= Seq::empty());
    assert(Seq::empty().push(entry) =~= one);
    if more.len() == 0 {
        assert(frames + more =~= frames);
        assert(on_screen(frames, display) + on_screen(more, display) =~= on_screen(frames, display));
        assert(parked(frames, display) + parked(more, display) =~= parked(frames, display));
    } else {
        each_class_keeps_its_order(frames, more.drop_last(), display, entry);
        assert((frames + more).drop_last() =~= frames + more.drop_last());
        assert((frames + more).last() == more.last());
        assert(on_screen(frames + more, display) =~= on_screen(frames, display) + on_screen(
            more,
            display,
        ));
        assert(parked(frames + more, display) =~= parked(frames, display) + parked(more, display));
    }
}

/// A park touches the display with at most forty points both ways; a frame wholly off it, and one that
/// shows more, is no park.
pub proof fn a_park_is_a_sliver_on_the_display(frame: Rect, display: Rect)
    requires
        frame.inside(64),
        display.inside(64),
    ensures
        ({
            let left = if frame.origin.x >= display.origin.x {
                frame.origin.x as int
            } else {
                display.origin.x as int
            };
            let right = if frame.right() <= display.right() {
                frame.origin.x + frame.size.width
            } else {
                display.origin.x + display.size.width
            };
            let top = if frame.origin.y >= display.origin.y {
                frame.origin.y as int
            } else {
                display.origin.y as int
            };
            let bottom = if frame.bottom() <= display.bottom() {
                frame.origin.y + frame.size.height
            } else {
                display.origin.y + display.size.height
            };
            is_park(frame, display) <==> 0 < right - left <= 40_000 && 0 < bottom - top <= 40_000
        }),
{
}

/// A write is left out only from one park to another; with no answer from the server it always goes.
pub proof fn only_a_move_between_parks_is_left_out(
    frame: Rect,
    target: Rect,
    display: Rect,
    needed: bool,
    unknown: bool,
    between: bool,
)
    requires
        call_ensures(frame_write_needed, (Some(frame), target, display), needed),
        call_ensures(frame_write_needed, (None::<Rect>, target, display), unknown),
        call_ensures(is_park_to_park, (frame, target, display), between),
    ensures
        unknown,
        needed <==> !between,
        between ==> is_park(frame, display) && is_park(target, display),
        !is_park(frame, display) || !is_park(target, display) ==> needed,
        is_park(frame, display) && is_park(target, display) ==> between,
{
}

/// The order sent: what can be seen first, in the order given, then the rest in theirs.
pub proof fn what_is_seen_is_sent_first(
    frames: Vec<(WindowId, Rect)>,
    display: Rect,
    order: Vec<(WindowId, Rect)>,
    i: int,
    j: int,
)
    requires
        call_ensures(frame_send_order, (frames, display), order),
        0 <= i < j < order@.len(),
    ensures
        order@.len() == frames@.len(),
        order@.to_multiset() == frames@.to_multiset(),
        off_screen(display, order@[i].1) ==> off_screen(display, order@[j].1),
{
    every_frame_is_sent_once_and_parks_last(frames@, display);
    let sent = on_screen(frames@, display) + parked(frames@, display);
    assert(sent[i] == order@[i] && sent[j] == order@[j]);
}

} // verus!
