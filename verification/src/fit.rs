//! When a picture fits the frame it is drawn into. Sizes only: frames are in thousandths of a point,
//! what a picture covers is in pixels at a scale, and every ratio is compared by cross
//! multiplication.
use vstd::prelude::*;

use crate::geometry::{distance, Size};
use crate::time::SECOND;

verus! {

/// How far a desktop capture may be from the display's size and still be drawable.
pub const BACKDROP_SIZE_TOLERANCE: i64 = 2_000;

/// How old a fitting picture may grow before a warm captures it again anyway.
pub const SNAPSHOT_STALE_AFTER: u64 = 2_000_000_000;

/// The pixels to a point, in thousandths; a scale of zero is none, and counts as one pixel to the
/// point.
pub open spec fn effective_scale(scale: u32) -> int {
    if scale > 0 {
        scale as int
    } else {
        1000
    }
}

/// What pixels cover: so many across and down, at a scale of so many thousandths of a pixel to the
/// point. Nothing is divided, so nothing is rounded.
#[derive(Clone, Copy, PartialEq, Eq, Structural, Debug)]
pub struct Extent {
    pub width: i64,
    pub height: i64,
    pub scale: u32,
}

impl Extent {
    /// The thousandths of a pixel to the point.
    pub open spec fn per(self) -> int {
        effective_scale(self.scale)
    }

    /// An extent in thousandths of a point: a thousand of them to the point.
    pub open spec fn in_points(size: (i64, i64)) -> Extent {
        Extent { width: size.0, height: size.1, scale: 1_000_000 }
    }

    /// An extent in thousandths of a point.
    pub fn points(size: (i64, i64)) -> (r: Extent)
        ensures
            r == Extent::in_points(size),
    {
        Extent { width: size.0, height: size.1, scale: 1_000_000 }
    }

    /// The pixels cover exactly `size`, in thousandths of a point.
    pub open spec fn is_exactly(self, size: (i64, i64)) -> bool {
        self.width * 1_000_000 == size.0 * self.per() && self.height * 1_000_000 == size.1
            * self.per()
    }
}

/// A length times a scale.
fn scaled(length: i64, scale: u32) -> (r: i128)
    ensures
        r == length * effective_scale(scale),
        -0x8000_0000_0000_0000_0000_0000 <= r <= 0x8000_0000_0000_0000_0000_0000,
{
    let per: u32 = if scale > 0 {
        scale
    } else {
        1000
    };
    proof {
        assert(-0x8000_0000_0000_0000_0000_0000 <= length * per <= 0x8000_0000_0000_0000_0000_0000)
            by (nonlinear_arith)
            requires
                -0x8000_0000_0000_0000 <= length <= 0x7fff_ffff_ffff_ffff,
                0 <= per <= 0xffff_ffff,
        ;
    }
    length as i128 * per as i128
}

/// How much of a window a capture actually covers.
#[derive(Clone, Copy, PartialEq, Eq, Debug)]
pub struct Coverage {
    /// The extent that the captured pixels cover, which is not always the window's own: a capture
    /// of a partly visible window covers only the visible part.
    pub covered: Extent,
    /// The window's full extent at capture time.
    pub window: (i64, i64),
}

/// `pixels`, at `per` thousandths of a pixel to the point, reach 995 thousandths of `window`.
///
/// Strict, because contents stretch to fill and a clipped capture then sits visibly out of register
/// with the real window. Short of the whole only to absorb a pixel or two of rounding.
pub open spec fn covers_axis(pixels: int, per: int, window: int) -> bool {
    window > 0 && 1000 * (pixels * 1_000_000) >= 995 * (window * per)
}

impl Coverage {
    /// The capture covers enough of the window on both axes.
    pub open spec fn usable(self) -> bool {
        covers_axis(self.covered.width as int, self.covered.per(), self.window.0 as int)
            && covers_axis(self.covered.height as int, self.covered.per(), self.window.1 as int)
    }

    /// Does this capture cover enough of the window to be worth drawing?
    ///
    /// A clipped capture is not merely lower quality, it is wrong: stretching a 40pt sliver across
    /// 859pt produces a smear that reads as a rendering bug.
    pub fn is_usable(&self) -> (r: bool)
        ensures
            r == self.usable(),
    {
        if self.window.0 <= 0 || self.window.1 <= 0 {
            return false;
        }
        let wide: i128 = 1_000_000_000i128 * self.covered.width as i128;
        let tall: i128 = 1_000_000_000i128 * self.covered.height as i128;
        wide >= 995 * scaled(self.window.0, self.covered.scale) && tall >= 995 * scaled(
            self.window.1,
            self.covered.scale,
        )
    }
}

/// What is cached gives way to what comes in, unless that would lose a usable capture.
pub open spec fn replaces(existing: Option<Coverage>, incoming: Coverage) -> bool {
    !(existing matches Some(held) && held.usable() && !incoming.usable())
}

/// Should an incoming capture replace what is already cached?
///
/// Never downgrades a usable capture to a clipped one, but accepts a clipped one when there is
/// nothing better, since the caller can decline to draw it and a later refresh can upgrade it.
pub fn should_replace(existing: Option<Coverage>, incoming: Coverage) -> (r: bool)
    ensures
        r == replaces(existing, incoming),
{
    match existing {
        Some(held) => !(held.is_usable() && !incoming.is_usable()),
        None => true,
    }
}

/// `covered`, at its scale, is `frame`, at its own, within five thousandths.
///
/// Contents are stretched to fill their layer with no regard for their own proportions: half a
/// percent is rounding, more than that is distortion.
pub open spec fn fits_axis(covered: int, per: int, frame: int, frame_per: int) -> bool {
    frame > 0 && 995 * (frame * per) <= 1000 * (covered * frame_per) <= 1005 * (frame * per)
}

/// A picture covering `covered` can be drawn over `frame` without visible distortion.
pub open spec fn alike(covered: Extent, frame: Extent) -> bool {
    fits_axis(covered.width as int, covered.per(), frame.width as int, frame.per()) && fits_axis(
        covered.height as int,
        covered.per(),
        frame.height as int,
        frame.per(),
    )
}

/// A picture covering `covered` can be drawn at `frame` without visible distortion.
pub open spec fn fitting(covered: Extent, frame: (i64, i64)) -> bool {
    alike(covered, Extent::in_points(frame))
}

/// Can this picture be drawn over what another covers without visibly distorting it?
pub fn fits_extent(covered: Extent, frame: Extent) -> (r: bool)
    ensures
        r == alike(covered, frame),
{
    if frame.width <= 0 || frame.height <= 0 {
        return false;
    }
    let wide: i128 = 1000 * scaled(covered.width, frame.scale);
    let tall: i128 = 1000 * scaled(covered.height, frame.scale);
    let across: i128 = scaled(frame.width, covered.scale);
    let down: i128 = scaled(frame.height, covered.scale);
    995 * across <= wide && wide <= 1005 * across && 995 * down <= tall && tall <= 1005 * down
}

/// Can this picture be drawn at `frame` without visibly distorting it?
///
/// Distinct from [`Coverage::is_usable`], which compares a capture against the window it was taken
/// from. This compares it against the frame it is drawn into, which a cached picture routinely no
/// longer matches.
pub fn fits_frame(covered: Extent, frame: (i64, i64)) -> (r: bool)
    ensures
        r == fitting(covered, frame),
{
    fits_extent(covered, Extent::points(frame))
}

/// `to` is not `from` within the stretch tolerance.
pub open spec fn resizes(from: Size, to: Size) -> bool {
    !fitting(Extent::in_points((from.width, from.height)), (to.width, to.height))
}

/// Whether a layout change resizes a window, rather than merely moving it.
///
/// The threshold is [`fits_frame`]'s, so "this move is a resize" and "this picture no longer fits"
/// agree by construction.
pub fn is_a_resize(from: Size, to: Size) -> (r: bool)
    ensures
        r == resizes(from, to),
{
    !fits_frame(Extent::points((from.width, from.height)), (to.width, to.height))
}

/// `size` is bigger than the capture on some axis, beyond the stretch tolerance.
pub open spec fn outgrown(covered: Extent, size: Size) -> bool {
    1000 * (size.width * covered.per()) > 1005 * (covered.width * 1_000_000) || 1000 * (size.height
        * covered.per()) > 1005 * (covered.height * 1_000_000)
}

/// Whether `size` needs pixels this picture does not have.
///
/// The grow-vs-shrink asymmetry of the crop-drawn resize: a shrink crops the picture it has, which
/// is truthful; a grow needs content that does not exist until the app renders at the new size, so
/// it holds for a fresh capture.
pub fn outgrows(covered: Extent, size: Size) -> (r: bool)
    ensures
        r == outgrown(covered, size),
{
    1000 * scaled(size.width, covered.scale) > 1_005_000_000i128 * covered.width as i128 || 1000
        * scaled(size.height, covered.scale) > 1_005_000_000i128 * covered.height as i128
}

/// There is no picture, or it does not fit `size`.
pub open spec fn capture_needed(cached: Option<Coverage>, size: (i64, i64)) -> bool {
    cached matches Some(coverage) ==> !fitting(coverage.covered, size)
}

/// Whether a window needs a fresh capture before it can be drawn at `size`.
///
/// Having a drawable picture is not enough: it also has to match the size the window is now.
pub fn needs_capture(cached: Option<Coverage>, size: (i64, i64)) -> (r: bool)
    ensures
        r == capture_needed(cached, size),
{
    match cached {
        None => true,
        Some(coverage) => !fits_frame(coverage.covered, size),
    }
}

/// The two extents differ by no more than [`BACKDROP_SIZE_TOLERANCE`] on either axis.
pub open spec fn spans(covered: Extent, display: (i64, i64)) -> bool {
    distance(covered.width * 1_000_000 - display.0 * covered.per()) <= 2_000 * covered.per()
        && distance(covered.height * 1_000_000 - display.1 * covered.per()) <= 2_000
        * covered.per()
}

/// Whether a desktop picture is the size of the display it is about to be drawn on.
///
/// The backdrop layer is sized from the picture rather than from the overlay, which keeps it in
/// register with the real desktop. That only holds if the two agree.
pub fn spans_display(covered: Extent, display: (i64, i64)) -> (r: bool)
    ensures
        r == spans(covered, display),
{
    let dx: i128 = 1_000_000i128 * covered.width as i128 - scaled(display.0, covered.scale);
    let dy: i128 = 1_000_000i128 * covered.height as i128 - scaled(display.1, covered.scale);
    let most: i128 = scaled(BACKDROP_SIZE_TOLERANCE, covered.scale);
    -most <= dx && dx <= most && -most <= dy && dy <= most
}

/// Whether a fresh desktop capture is worth drawing behind the moving strips.
///
/// Rejects a composite whose wallpaper window was missing, and one that does not span the display,
/// since either draws as a black screen for the length of an animation. Rejecting means keeping
/// whatever is already drawn, so a wallpaperless capture is still accepted when there is nothing to
/// keep.
pub fn is_backdrop_worth_drawing(
    have_one_already: bool,
    has_wallpaper: bool,
    covered: Extent,
    display: (i64, i64),
) -> (r: bool)
    ensures
        r == (spans(covered, display) && (has_wallpaper || !have_one_already)),
{
    spans_display(covered, display) && (has_wallpaper || !have_one_already)
}

/// Whether a cached picture's age alone justifies a fresh capture.
pub fn picture_is_stale(age: u64) -> (r: bool)
    ensures
        r == (age > 2 * SECOND),
{
    age > SNAPSHOT_STALE_AFTER
}

/// A usable picture is never given up for one that is not usable, and nothing else is protected.
pub proof fn a_usable_capture_is_never_downgraded(existing: Option<Coverage>, incoming: Coverage)
    ensures
        existing is Some && existing->0.usable() && replaces(existing, incoming)
            ==> incoming.usable(),
        existing is None ==> replaces(existing, incoming),
        existing is Some && !existing->0.usable() ==> replaces(existing, incoming),
        incoming.usable() ==> replaces(existing, incoming),
{
}

/// A capture of exactly its window is usable, fits the window's frame and needs no other.
pub proof fn an_exact_capture_is_usable_and_fits(size: (i64, i64))
    requires
        size.0 > 0,
        size.1 > 0,
    ensures
        (Coverage { covered: Extent::in_points(size), window: size }).usable(),
        fitting(Extent::in_points(size), size),
        !capture_needed(
            Some(Coverage { covered: Extent::in_points(size), window: size }),
            size,
        ),
        !resizes(Size { width: size.0, height: size.1 }, Size { width: size.0, height: size.1 }),
{
}

/// In thousandths of a point: a capture is usable when it reaches 995 thousandths of its window both
/// ways, and of a window without extent none is.
pub proof fn a_usable_capture_reaches_across_its_window(size: (i64, i64), window: (i64, i64))
    ensures
        (Coverage { covered: Extent::in_points(size), window }).usable() <==> window.0 > 0
            && window.1 > 0 && 1000 * size.0 >= 995 * window.0 && 1000 * size.1 >= 995 * window.1,
{
    assert(Extent::in_points(size).per() == 1_000_000);
}

/// In thousandths of a point: a picture fits a frame when both its extents are the frame's within five
/// thousandths of that, and a size change within as little is no resize.
pub proof fn a_fitting_picture_is_within_half_a_percent(size: (i64, i64), frame: (i64, i64))
    ensures
        fitting(Extent::in_points(size), frame) <==> {
            &&& frame.0 > 0 && 995 * frame.0 <= 1000 * size.0 <= 1005 * frame.0
            &&& frame.1 > 0 && 995 * frame.1 <= 1000 * size.1 <= 1005 * frame.1
        },
        resizes(
            Size { width: size.0, height: size.1 },
            Size { width: frame.0, height: frame.1 },
        ) <==> !fitting(Extent::in_points(size), frame),
{
    assert(Extent::in_points(size).per() == 1_000_000);
    assert(Extent::in_points(frame).per() == 1_000_000);
}

/// In thousandths of a point: a size outgrows a picture when one of its extents is over 1005
/// thousandths of the picture's. A size no larger than the picture never does, nor one it fits; and
/// what is outgrown by a size is outgrown by every larger one.
pub proof fn a_picture_is_outgrown_by_larger_sizes(covered: (i64, i64), size: Size, larger: Size)
    requires
        covered.0 >= 0,
        covered.1 >= 0,
        size.width <= larger.width,
        size.height <= larger.height,
    ensures
        outgrown(Extent::in_points(covered), size) <==> 1000 * size.width > 1005 * covered.0 || 1000
            * size.height > 1005 * covered.1,
        size.width <= covered.0 && size.height <= covered.1 ==> !outgrown(
            Extent::in_points(covered),
            size,
        ),
        outgrown(Extent::in_points(covered), size) ==> outgrown(
            Extent::in_points(covered),
            larger,
        ),
{
    assert(Extent::in_points(covered).per() == 1_000_000);
}

/// In thousandths of a point: a desktop picture spans a display when both its extents are within two
/// points of the display's.
pub proof fn a_spanning_picture_is_within_two_points(covered: (i64, i64), display: (i64, i64))
    ensures
        spans(Extent::in_points(covered), display) <==> {
            &&& -2_000 <= covered.0 - display.0 <= 2_000
            &&& -2_000 <= covered.1 - display.1 <= 2_000
        },
{
    assert(Extent::in_points(covered).per() == 1_000_000);
}

/// What pixels cover is the pixels by the point: two extents with the same quotient on both axes are
/// used alike, whatever their scales, and a scale of zero is one pixel to the point.
pub proof fn pixels_count_by_the_point(
    a: Extent,
    b: Extent,
    window: (i64, i64),
    frame: (i64, i64),
    size: Size,
)
    requires
        a.width * b.per() == b.width * a.per(),
        a.height * b.per() == b.height * a.per(),
    ensures
        (Coverage { covered: a, window }).usable() == (Coverage { covered: b, window }).usable(),
        fitting(a, frame) == fitting(b, frame),
        outgrown(a, size) == outgrown(b, size),
        spans(a, frame) == spans(b, frame),
        (Extent { width: a.width, height: a.height, scale: 0 }).per() == (Extent {
            width: a.width,
            height: a.height,
            scale: 1000,
        }).per(),
        a.scale > 0 ==> a.per() == a.scale,
{
    one_axis(a.width as int, a.per(), b.width as int, b.per(), window.0 as int);
    one_axis(a.height as int, a.per(), b.height as int, b.per(), window.1 as int);
    one_axis(a.width as int, a.per(), b.width as int, b.per(), frame.0 as int);
    one_axis(a.height as int, a.per(), b.height as int, b.per(), frame.1 as int);
    one_axis(a.width as int, a.per(), b.width as int, b.per(), size.width as int);
    one_axis(a.height as int, a.per(), b.height as int, b.per(), size.height as int);
}

proof fn one_axis(a: int, p: int, b: int, q: int, length: int)
    requires
        p > 0,
        q > 0,
        a * q == b * p,
    ensures
        covers_axis(a, p, length) == covers_axis(b, q, length),
        fits_axis(a, p, length, 1_000_000) == fits_axis(b, q, length, 1_000_000),
        1000 * (length * p) > 1005 * (a * 1_000_000) <==> 1000 * (length * q) > 1005 * (b
            * 1_000_000),
        distance(a * 1_000_000 - length * p) <= 2_000 * p <==> distance(
            b * 1_000_000 - length * q,
        ) <= 2_000 * q,
{
    assert(-a * q == -b * p) by (nonlinear_arith)
        requires
            a * q == b * p,
    ;
    compared_alike(a, p, b, q, length, 1000, 995);
    compared_alike(a, p, b, q, length, 1005, 1000);
    compared_alike(-a, p, -b, q, -length, 1000, 1005);
    compared_alike(-a, p, -b, q, -(length + 2_000), 1, 1);
    compared_alike(a, p, b, q, length - 2_000, 1, 1);
    assert((length - 2_000) * p == length * p - 2_000 * p) by (nonlinear_arith);
    assert((length - 2_000) * q == length * q - 2_000 * q) by (nonlinear_arith);
    assert(-(length + 2_000) * p == -(length * p) - 2_000 * p) by (nonlinear_arith);
    assert(-(length + 2_000) * q == -(length * q) - 2_000 * q) by (nonlinear_arith);
    assert(-length * p == -(length * p)) by (nonlinear_arith);
    assert(-length * q == -(length * q)) by (nonlinear_arith);
}

proof fn multiplied(a: int, p: int, q: int, length: int, k: int, m: int)
    ensures
        (k * (a * 1_000_000) - m * (length * p)) * q == (1_000_000 * k) * (a * q) - (m * length) * (
        p * q),
{
    assert((k * (a * 1_000_000) - m * (length * p)) * q == (1_000_000 * k) * (a * q) - (m * length)
        * (p * q)) by (nonlinear_arith);
}

proof fn compared_alike(a: int, p: int, b: int, q: int, length: int, k: int, m: int)
    requires
        p > 0,
        q > 0,
        a * q == b * p,
    ensures
        k * (a * 1_000_000) >= m * (length * p) <==> k * (b * 1_000_000) >= m * (length * q),
{
    let x = k * (a * 1_000_000) - m * (length * p);
    let y = k * (b * 1_000_000) - m * (length * q);
    multiplied(a, p, q, length, k, m);
    multiplied(b, q, p, length, k, m);
    assert(p * q == q * p) by (nonlinear_arith);
    assert((x >= 0) == (x * q >= 0)) by (nonlinear_arith)
        requires
            q > 0,
    ;
    assert((y >= 0) == (y * p >= 0)) by (nonlinear_arith)
        requires
            p > 0,
    ;
}

/// A picture is captured anew when there is none or it does not fit, and once it is over two seconds
/// old.
pub proof fn a_picture_is_kept_while_it_fits_and_is_fresh(
    cached: Option<Coverage>,
    size: (i64, i64),
    age: u64,
    stale: bool,
)
    requires
        call_ensures(picture_is_stale, (age,), stale),
    ensures
        cached is None ==> capture_needed(cached, size),
        cached matches Some(held) ==> (capture_needed(cached, size) <==> !fitting(
            held.covered,
            size,
        )),
        stale <==> age > 2_000_000_000,
{
}

/// A desktop picture that does not span the display is never drawn; one that does is drawn when it
/// shows the wallpaper, or when there is nothing else to draw.
pub proof fn a_backdrop_is_never_given_up_for_a_black_one(
    covered: Extent,
    display: (i64, i64),
    with: bool,
    first: bool,
    without: bool,
)
    requires
        call_ensures(is_backdrop_worth_drawing, (true, true, covered, display), with),
        call_ensures(is_backdrop_worth_drawing, (false, false, covered, display), first),
        call_ensures(is_backdrop_worth_drawing, (true, false, covered, display), without),
    ensures
        with == spans(covered, display),
        first == spans(covered, display),
        !without,
{
}

} // verus!
