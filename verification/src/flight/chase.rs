//! The chase after the first settled picture of a window that grows or opens.
//!
//! The frame resizes at once; the pixels lag. The chase looks at the window again and again, and only
//! a settled capture counts.
use vstd::prelude::*;

use crate::fit::{fits_frame, fitting, Extent};
use crate::flight::decision::{
    chase_settled, settles, REVEAL_CHASE_ATTEMPTS,
};
use crate::geometry::Size;
use crate::snapshot::WindowSnapshot;

verus! {

/// One chase: the size that counts, what the window rendered like before, and what the last capture
/// rendered like.
pub struct Chase {
    pub size: Size,
    /// The rendering the tile flies from; a capture that no longer renders like it is the app's
    /// repaint. An entrance has none.
    pub pre_resize: Option<Vec<u8>>,
    pub last_print: Option<Vec<u8>>,
    /// How many looks are left.
    pub left: usize,
}

/// What the chase does next.
#[derive(Clone, Copy, PartialEq, Eq, Structural, Debug)]
pub enum ChaseStep {
    /// Sleep, then look at the window's frame again.
    Look,
    /// The frame has the size: capture it.
    Capture,
    /// The capture is the window's settled rendering.
    Settled,
    /// Every look is spent; the hold deadline will fly the placeholder.
    GaveUp,
}

/// The contents of an optional thumbprint.
pub open spec fn print_of(print: Option<Vec<u8>>) -> Option<Seq<u8>> {
    match print {
        Some(bytes) => Some(bytes@),
        None => None,
    }
}

/// What comes after a look that led nowhere.
pub open spec fn after_look(left: int) -> ChaseStep {
    if left == 0 {
        ChaseStep::GaveUp
    } else {
        ChaseStep::Look
    }
}

impl Chase {
    /// A chase for a picture of `size`.
    pub fn new(size: Size, pre_resize: Option<Vec<u8>>) -> (r: Chase)
        ensures
            r.size == size,
            r.pre_resize == pre_resize,
            r.last_print is None,
            r.left == REVEAL_CHASE_ATTEMPTS,
    {
        Chase { size, pre_resize, last_print: None, left: REVEAL_CHASE_ATTEMPTS }
    }

    fn next(&self) -> (r: ChaseStep)
        ensures
            r == after_look(self.left as int),
    {
        if self.left == 0 {
            ChaseStep::GaveUp
        } else {
            ChaseStep::Look
        }
    }

    /// One look at the window's frame: `None` when the server does not know the window. A frame of
    /// another size makes the last capture worthless.
    pub fn saw(&mut self, frame: Option<Size>) -> (r: ChaseStep)
        requires
            old(self).left > 0,
        ensures
            final(self).left == old(self).left - 1,
            final(self).size == old(self).size,
            final(self).pre_resize == old(self).pre_resize,
            ({
                let fits = frame is Some && fitting(
                    Extent::in_points(((frame->0).width, (frame->0).height)),
                    (old(self).size.width, old(self).size.height),
                );
                &&& r == (if fits {
                    ChaseStep::Capture
                } else {
                    after_look(old(self).left - 1)
                })
                &&& print_of(final(self).last_print) == (if frame is Some && !fits {
                    None
                } else {
                    print_of(old(self).last_print)
                })
            }),
    {
        self.left = self.left - 1;
        match frame {
            None => self.next(),
            Some(size) => if fits_frame(
                Extent::points((size.width, size.height)),
                (self.size.width, self.size.height),
            ) {
                ChaseStep::Capture
            } else {
                self.last_print = None;
                self.next()
            },
        }
    }

    /// What the capture gave: `None` when it failed; `print` is the picture's thumbprint where it
    /// has one. A picture that is clipped or of another size makes the last capture worthless.
    pub fn captured(&mut self, snapshot: Option<WindowSnapshot>, print: Option<Vec<u8>>) -> (r:
        ChaseStep)
        ensures
            final(self).left == old(self).left,
            final(self).size == old(self).size,
            final(self).pre_resize == old(self).pre_resize,
            ({
                let good = snapshot is Some && (snapshot->0).coverage.usable() && (
                snapshot->0).suits(old(self).size);
                &&& r == ChaseStep::Settled <==> good && print is Some && settles(
                    print_of(old(self).last_print),
                    print_of(print)->0,
                    print_of(old(self).pre_resize),
                )
                &&& r != ChaseStep::Settled ==> r == after_look(old(self).left as int)
                &&& print_of(final(self).last_print) == (if snapshot is Some && !good {
                    None
                } else if good && print is Some {
                    print_of(print)
                } else {
                    print_of(old(self).last_print)
                })
            }),
    {
        match snapshot {
            None => self.next(),
            Some(picture) => {
                if !picture.is_usable() || !picture.fits(self.size) {
                    self.last_print = None;
                    return self.next();
                }
                match print {
                    None => self.next(),
                    Some(bytes) => {
                        let settled: bool = {
                            let before: Option<&[u8]> = match &self.last_print {
                                Some(last) => Some(last.as_slice()),
                                None => None,
                            };
                            let resized: Option<&[u8]> = match &self.pre_resize {
                                Some(old_print) => Some(old_print.as_slice()),
                                None => None,
                            };
                            chase_settled(before, bytes.as_slice(), resized)
                        };
                        self.last_print = Some(bytes);
                        if settled {
                            ChaseStep::Settled
                        } else {
                            self.next()
                        }
                    },
                }
            },
        }
    }
}

/// A window that renders the same twice in a row has settled, and so has one that has visibly
/// repainted since before its resize.
pub proof fn two_like_captures_or_a_repaint_settle(
    prev: Seq<u8>,
    print: Seq<u8>,
    pre_resize: Option<Seq<u8>>,
)
    ensures
        crate::flight::decision::renders_like(prev, print) ==> settles(
            Some(prev),
            print,
            pre_resize,
        ),
        pre_resize is Some && !crate::flight::decision::renders_like(pre_resize->0, print)
            ==> settles(None, print, pre_resize),
        !settles(None, print, None),
{
}

/// Every look spends one of the looks left. A window seen at the size wanted is captured; one seen at
/// another size makes the last capture worthless, and one not seen does not. The chase goes on while
/// looks are left.
pub proof fn a_chase_captures_the_size_it_waits_for(
    chase: &mut Chase,
    frame: Option<Size>,
    step: ChaseStep,
)
    requires
        call_ensures(Chase::saw, (chase, frame), step),
        old(chase).left > 0,
    ensures
        final(chase).left + 1 == old(chase).left,
        final(chase).size == old(chase).size,
        step != ChaseStep::Settled,
        step == ChaseStep::Capture <==> frame is Some && !crate::fit::resizes(
            frame->0,
            old(chase).size,
        ),
        step == ChaseStep::GaveUp ==> final(chase).left == 0,
        step == ChaseStep::Look ==> final(chase).left > 0,
        step == ChaseStep::Capture || frame is None ==> print_of(final(chase).last_print)
            == print_of(old(chase).last_print),
        step != ChaseStep::Capture && frame is Some ==> final(chase).last_print is None,
{
}

/// A capture ends the chase only when it is usable, of the size wanted, and either repeats the last
/// one or differs from what was there before the resize; a failed capture leaves the last one
/// standing, a clipped one does not.
pub proof fn a_chase_ends_with_a_settled_capture(
    chase: &mut Chase,
    snapshot: Option<WindowSnapshot>,
    print: Option<Vec<u8>>,
    step: ChaseStep,
)
    requires
        call_ensures(Chase::captured, (chase, snapshot, print), step),
    ensures
        final(chase).left == old(chase).left,
        step == ChaseStep::Settled ==> snapshot is Some && (snapshot->0).coverage.usable() && (
        snapshot->0).suits(old(chase).size) && print is Some,
        step == ChaseStep::Settled ==> (old(chase).last_print is Some
            && crate::flight::decision::renders_like((old(chase).last_print->0)@, (print->0)@))
            || (old(chase).pre_resize is Some && !crate::flight::decision::renders_like(
            (old(chase).pre_resize->0)@,
            (print->0)@,
        )),
        step != ChaseStep::Capture,
        step == ChaseStep::GaveUp ==> old(chase).left == 0,
        step == ChaseStep::Look ==> old(chase).left > 0,
        snapshot is None ==> print_of(final(chase).last_print) == print_of(old(chase).last_print),
        snapshot is Some && (!(snapshot->0).coverage.usable() || !(snapshot->0).suits(
            old(chase).size,
        )) ==> final(chase).last_print is None,
        snapshot is Some && (snapshot->0).coverage.usable() && (snapshot->0).suits(old(chase).size)
            && print is Some ==> print_of(final(chase).last_print) == Some((print->0)@),
{
}

/// A chase begins with all its looks, with nothing seen, for the size and from the rendering given.
pub proof fn a_chase_begins_fresh(size: Size, pre_resize: Option<Vec<u8>>, chase: Chase)
    requires
        call_ensures(Chase::new, (size, pre_resize), chase),
    ensures
        chase.left == 125,
        chase.size == size,
        chase.pre_resize == pre_resize,
        chase.last_print is None,
{
}

} // verus!
