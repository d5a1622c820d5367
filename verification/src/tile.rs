//! How one tile fits its picture to the frame it is drawn in, and how its frame interpolates.
//! Sizes and frames only.
use vstd::prelude::*;

use crate::fit::{fits_frame, fitting, is_a_resize, outgrown, outgrows, resizes, Extent};
use crate::geometry::{greater, greater_of, lesser, lesser_of, Point, Rect, Size};

verus! {

/// How a tile's picture is fitted to the frame it is drawn in.
#[derive(Clone, Copy, PartialEq, Eq, Structural, Debug)]
pub enum ContentMode {
    /// Scaled to fill the frame. Right for a movement whose picture matches the frame's shape.
    Stretch,
    /// Cropped or revealed: the picture draws at native scale, and the size change is absorbed by a
    /// seam a band in from the trailing edges, so the moving edge swallows or reveals content and
    /// the window's rounded corners and border ride it intact.
    Crop,
}

/// Stretched over a destination the picture cannot cover, cropped otherwise.
pub open spec fn placeholder(covered: Extent, to: Size) -> ContentMode {
    if outgrown(covered, to) {
        ContentMode::Stretch
    } else {
        ContentMode::Crop
    }
}

/// How a tile fits a picture that may not cover its destination: the ordinary crop when it can,
/// stretched when it cannot. Every mode fills the whole frame, so a placeholder never shows the
/// backdrop.
pub fn placeholder_mode(covered: Extent, to: Size) -> (r: ContentMode)
    ensures
        r == placeholder(covered, to),
{
    if outgrows(covered, to) {
        ContentMode::Stretch
    } else {
        ContentMode::Crop
    }
}

/// Crop for a resize, and for any picture that no longer matches the frame it starts in; stretched
/// only when picture and frames agree, where stretching is exact.
pub fn content_mode(covered: Extent, from: Size, to: Size) -> (r: ContentMode)
    ensures
        r == (if resizes(from, to) || !fitting(covered, (from.width, from.height)) {
            placeholder(covered, to)
        } else {
            ContentMode::Stretch
        }),
{
    if is_a_resize(from, to) || !fits_frame(covered, (from.width, from.height)) {
        placeholder_mode(covered, to)
    } else {
        ContentMode::Stretch
    }
}

/// What a fresh hairline does to the layers a tile already wears.
#[derive(Clone, Copy, PartialEq, Eq, Structural, Debug)]
pub enum DressingAction {
    /// Same piece set: new pixels into the existing layers, riding any installed animation.
    SwapInPlace,
    /// Different piece set: drop the ring and build it at the model size.
    Rebuild,
    /// Different piece set while a resize is animating: leave the worn ring alone.
    Defer,
}

/// Whether a harvest may rebuild a tile's ring now.
pub fn dressing_rebuild_allowed(resize_in_flight: bool, worn_matches: bool) -> (r: DressingAction)
    ensures
        r == (if worn_matches {
            DressingAction::SwapInPlace
        } else if resize_in_flight {
            DressingAction::Defer
        } else {
            DressingAction::Rebuild
        }),
        resize_in_flight ==> r != DressingAction::Rebuild,
{
    if worn_matches {
        DressingAction::SwapInPlace
    } else if resize_in_flight {
        DressingAction::Defer
    } else {
        DressingAction::Rebuild
    }
}

/// Whether a tile's resize animation, ending at `resize_until`, is still riding at `now`.
pub fn resize_in_flight(resize_until: Option<u64>, now: u64) -> (r: bool)
    ensures
        r == (resize_until matches Some(until) && now < until),
{
    match resize_until {
        Some(until) => now < until,
        None => false,
    }
}

/// One piece of a crop-drawn tile: where it sits in the tile, and which part of the picture it
/// shows. Both are in twentieths of a thousandth of a point, the unit in which the band is whole.
///
/// A piece's frame is exactly as large as the picture region it shows while the frame fits inside
/// the picture, so nothing stretches.
#[derive(Clone, Copy, PartialEq, Eq, Structural, Debug)]
pub struct CropPiece {
    pub frame: Rect,
    pub contents: Rect,
}

/// The band that fits the frame being drawn into: forty points, or nine twentieths of the frame's
/// shorter side where that is less. It shrinks with the frame, so a window growing in from nothing
/// starts with no band at all and gains it continuously.
pub open spec fn band(frame: Size) -> int {
    greater(lesser(800_000, 9 * lesser(frame.width as int, frame.height as int)), 0)
}

/// The band that fits the frame being drawn into.
pub fn crop_band(frame: Size) -> (r: i128)
    ensures
        r == band(frame),
{
    let shorter: i128 = lesser_of(frame.width as i128, frame.height as i128);
    greater_of(lesser_of(800_000, 9 * shorter), 0)
}

/// The picture's extent on one axis as the grid sees it: never under a point.
pub open spec fn picture_extent(extent: int) -> int {
    20 * greater(extent, 1000)
}

/// The band as the grid uses it: no larger than the picture.
pub open spec fn grid_band(picture: Size, frame: Size) -> int {
    lesser(
        lesser(band(frame), picture_extent(picture.width as int)),
        picture_extent(picture.height as int),
    )
}

/// What is left of one axis of the frame beside the band.
pub open spec fn body_extent(extent: int, band: int) -> int {
    greater(20 * extent - band, 0)
}

/// A piece at `(x, y)` of extent `(w, h)` showing the picture at `(cx, cy)` of extent `(cw, ch)`.
pub open spec fn piece(
    x: int,
    y: int,
    w: int,
    h: int,
    cx: int,
    cy: int,
    cw: int,
    ch: int,
) -> CropPiece {
    CropPiece {
        frame: Rect {
            origin: Point { x: x as i64, y: y as i64 },
            size: Size { width: w as i64, height: h as i64 },
        },
        contents: Rect {
            origin: Point { x: cx as i64, y: cy as i64 },
            size: Size { width: cw as i64, height: ch as i64 },
        },
    }
}

/// The grid: title band, top right corner, body, right band.
///
/// Across, content anchors left and the right band rides the moving edge. Down, the title band
/// stays put and the rest anchors to the bottom. Growing past the picture, the anchored regions
/// show everything up to the band and no further.
pub open spec fn crop_grid(picture: Size, frame: Size) -> Seq<CropPiece> {
    let pw = picture_extent(picture.width as int);
    let ph = picture_extent(picture.height as int);
    let b = grid_band(picture, frame);
    let bodyw = body_extent(frame.width as int, b);
    let bodyh = body_extent(frame.height as int, b);
    let leadw = lesser(bodyw, pw - b);
    let tailh = lesser(bodyh, ph - b);
    seq![
        piece(0, 0, bodyw, b, 0, 0, leadw, b),
        piece(bodyw, 0, b, b, pw - b, 0, b, b),
        piece(0, b, bodyw, bodyh, 0, ph - tailh, leadw, tailh),
        piece(bodyw, b, b, bodyh, pw - b, ph - tailh, b, tailh),
    ]
}

fn make_piece(
    at: (i128, i128),
    extent: (i128, i128),
    from: (i128, i128),
    shows: (i128, i128),
) -> (r: CropPiece)
    ensures
        r == piece(
            at.0 as int,
            at.1 as int,
            extent.0 as int,
            extent.1 as int,
            from.0 as int,
            from.1 as int,
            shows.0 as int,
            shows.1 as int,
        ),
{
    CropPiece {
        frame: Rect {
            origin: Point { x: at.0 as i64, y: at.1 as i64 },
            size: Size { width: extent.0 as i64, height: extent.1 as i64 },
        },
        contents: Rect {
            origin: Point { x: from.0 as i64, y: from.1 as i64 },
            size: Size { width: shows.0 as i64, height: shows.1 as i64 },
        },
    }
}

/// The two by two crop grid for a picture drawn into `frame`, split one band in from the right edge
/// and one down from the top. See [`crop_grid`].
pub fn crop_pieces(picture: Size, frame: Size) -> (r: [CropPiece; 4])
    requires
        picture.inside(1),
        frame.inside(1),
    ensures
        r@ == crop_grid(picture, frame),
{
    let pw: i128 = 20 * greater_of(picture.width as i128, 1000);
    let ph: i128 = 20 * greater_of(picture.height as i128, 1000);
    let b: i128 = lesser_of(lesser_of(crop_band(frame), pw), ph);
    let bodyw: i128 = greater_of(20 * frame.width as i128 - b, 0);
    let bodyh: i128 = greater_of(20 * frame.height as i128 - b, 0);
    let leadw: i128 = lesser_of(bodyw, pw - b);
    let tailh: i128 = lesser_of(bodyh, ph - b);
    let grid: [CropPiece; 4] = [
        make_piece((0, 0), (bodyw, b), (0, 0), (leadw, b)),
        make_piece((bodyw, 0), (b, b), (pw - b, 0), (b, b)),
        make_piece((0, b), (bodyw, bodyh), (0, ph - tailh), (leadw, tailh)),
        make_piece((bodyw, b), (b, bodyh), (pw - b, ph - tailh), (b, tailh)),
    ];
    assert(grid@ == crop_grid(picture, frame));
    grid
}

/// The four pieces meet edge to edge and fill the frame, whatever the picture.
pub proof fn crop_pieces_tile_the_frame(picture: Size, frame: Size)
    requires
        picture.inside(1),
        frame.inside(1),
        frame.width >= 0,
        frame.height >= 0,
    ensures
        ({
            let g = crop_grid(picture, frame);
            &&& g[0].frame.left() == 0 && g[0].frame.top() == 0
            &&& g[0].frame.right() == g[1].frame.left() && g[2].frame.right() == g[3].frame.left()
            &&& g[0].frame.bottom() == g[2].frame.top() && g[1].frame.bottom() == g[3].frame.top()
            &&& g[1].frame.right() == 20 * frame.width && g[3].frame.right() == 20 * frame.width
            &&& g[2].frame.bottom() == 20 * frame.height && g[3].frame.bottom() == 20
                * frame.height
            &&& g[0].frame.size.width == g[2].frame.size.width
            &&& g[1].frame.size.width == g[3].frame.size.width
            &&& g[0].frame.size.height == g[1].frame.size.height
            &&& g[2].frame.size.height == g[3].frame.size.height
        }),
{
}

/// The band always leaves room for itself, so the pieces of any frame tile it.
pub proof fn the_band_fits_any_frame(picture: Size, frame: Size)
    requires
        frame.width >= 0,
        frame.height >= 0,
    ensures
        0 <= grid_band(picture, frame) <= 20 * frame.width,
        grid_band(picture, frame) <= 20 * frame.height,
        band(frame) <= 800_000,
{
}

/// While the frame fits inside the picture, every piece is exactly as large as the part of the
/// picture it shows: nothing stretches.
pub proof fn crop_pieces_map_one_to_one(picture: Size, frame: Size, i: int)
    requires
        picture.inside(1),
        0 <= frame.width <= picture.width,
        0 <= frame.height <= picture.height,
        0 <= i < 4,
    ensures
        crop_grid(picture, frame)[i].frame.size == crop_grid(picture, frame)[i].contents.size,
{
}

/// No piece ever shows anything past the picture's edges.
pub proof fn crop_pieces_stay_inside_the_picture(picture: Size, frame: Size, i: int)
    requires
        picture.inside(1),
        frame.inside(1),
        0 <= i < 4,
    ensures
        ({
            let shown = crop_grid(picture, frame)[i].contents;
            &&& 0 <= shown.left() && shown.right() <= picture_extent(picture.width as int)
            &&& 0 <= shown.top() && shown.bottom() <= picture_extent(picture.height as int)
        }),
{
}

/// One coordinate `step` steps of `steps` on the way from `a` to `b`, counted in `steps`-ths of
/// its unit.
pub open spec fn on_the_way(a: int, b: int, step: int, steps: int) -> int {
    a * steps + (b - a) * step
}

/// The frame `step` steps of `steps` on the way from `from` to `to`, counted in `steps`-ths of a
/// thousandth of a point.
pub open spec fn lerped(from: Rect, to: Rect, step: int, steps: int) -> Rect {
    Rect {
        origin: Point {
            x: on_the_way(from.origin.x as int, to.origin.x as int, step, steps) as i64,
            y: on_the_way(from.origin.y as int, to.origin.y as int, step, steps) as i64,
        },
        size: Size {
            width: on_the_way(from.size.width as int, to.size.width as int, step, steps) as i64,
            height: on_the_way(from.size.height as int, to.size.height as int, step, steps) as i64,
        },
    }
}

fn lerp_coordinate(a: i64, b: i64, step: u8, steps: u8) -> (r: i64)
    requires
        crate::geometry::inside(a as int, 8),
        crate::geometry::inside(b as int, 8),
        step <= steps <= 100,
    ensures
        r == on_the_way(a as int, b as int, step as int, steps as int),
        crate::geometry::inside(r as int, 8 * steps),
{
    let (x, y, s, n): (i128, i128, i128, i128) = (a as i128, b as i128, step as i128, steps as i128);
    assert(x * n + (y - x) * s == x * (n - s) + y * s) by (nonlinear_arith);
    assert(-(72_057_594_037_927_936 * (n - s)) <= x * (n - s) <= 72_057_594_037_927_936 * (n - s))
        by (nonlinear_arith)
        requires
            -72_057_594_037_927_936 <= x <= 72_057_594_037_927_936,
            0 <= n - s,
    ;
    assert(-(72_057_594_037_927_936 * s) <= y * s <= 72_057_594_037_927_936 * s) by (nonlinear_arith)
        requires
            -72_057_594_037_927_936 <= y <= 72_057_594_037_927_936,
            0 <= s,
    ;
    assert(-(72_057_594_037_927_936 * 100) <= x * n <= 72_057_594_037_927_936 * 100)
        by (nonlinear_arith)
        requires
            -72_057_594_037_927_936 <= x <= 72_057_594_037_927_936,
            0 <= n <= 100,
    ;
    assert(-(2 * 72_057_594_037_927_936 * 100) <= (y - x) * s <= 2 * 72_057_594_037_927_936 * 100)
        by (nonlinear_arith)
        requires
            -72_057_594_037_927_936 <= x <= 72_057_594_037_927_936,
            -72_057_594_037_927_936 <= y <= 72_057_594_037_927_936,
            0 <= s <= 100,
    ;
    assert((8 * n) * crate::geometry::LIMIT == 72_057_594_037_927_936 * n) by (nonlinear_arith)
        requires
            crate::geometry::LIMIT == 9_007_199_254_740_992,
    ;
    (x * n + (y - x) * s) as i64
}

/// Interpolates a frame: `step` steps of `steps`, in `steps`-ths of a thousandth of a point.
pub fn lerp_rect(from: Rect, to: Rect, step: u8, steps: u8) -> (r: Rect)
    requires
        from.inside(8),
        to.inside(8),
        step <= steps <= 100,
    ensures
        r == lerped(from, to, step as int, steps as int),
        r.inside(8 * steps),
{
    Rect {
        origin: Point {
            x: lerp_coordinate(from.origin.x, to.origin.x, step, steps),
            y: lerp_coordinate(from.origin.y, to.origin.y, step, steps),
        },
        size: Size {
            width: lerp_coordinate(from.size.width, to.size.width, step, steps),
            height: lerp_coordinate(from.size.height, to.size.height, step, steps),
        },
    }
}

/// No step taken is the start, every step taken is the end.
pub proof fn lerp_starts_and_ends_at_its_frames(a: int, b: int, steps: int)
    ensures
        on_the_way(a, b, 0, steps) == a * steps,
        on_the_way(a, b, steps, steps) == b * steps,
{
    assert((b - a) * 0 == 0);
    assert(a * steps + (b - a) * steps == b * steps) by (nonlinear_arith);
}

/// Every outer edge of the frame shows the same edge of the picture: the left pieces begin at its
/// left, the right ones end at its right, the top ones begin at its top and the bottom ones end at
/// its bottom. A picture under a point counts as one point.
pub proof fn every_edge_shows_the_pictures_edge(picture: Size, frame: Size)
    requires
        picture.inside(1),
        frame.inside(1),
    ensures
        ({
            let g = crop_grid(picture, frame);
            let right = if picture.width >= 1000 {
                20 * picture.width
            } else {
                20_000
            };
            let bottom = if picture.height >= 1000 {
                20 * picture.height
            } else {
                20_000
            };
            &&& g.len() == 4
            &&& g[0].contents.origin.x == 0 && g[2].contents.origin.x == 0
            &&& g[1].contents.origin.x + g[1].contents.size.width == right
            &&& g[3].contents.origin.x + g[3].contents.size.width == right
            &&& g[0].contents.origin.y == 0 && g[1].contents.origin.y == 0
            &&& g[2].contents.origin.y + g[2].contents.size.height == bottom
            &&& g[3].contents.origin.y + g[3].contents.size.height == bottom
        }),
{
}

/// The corner and the bands beside it never stretch across the way they are banded: the corner is
/// shown one to one, the title band keeps its height and the right band its width. Pieces of one row
/// show one row of the picture, pieces of one column one column.
pub proof fn bands_never_stretch(picture: Size, frame: Size)
    requires
        picture.inside(1),
        frame.inside(1),
    ensures
        ({
            let g = crop_grid(picture, frame);
            &&& g[1].frame.size == g[1].contents.size
            &&& g[1].frame.size.width == g[1].frame.size.height
            &&& g[0].frame.size.height == g[0].contents.size.height
            &&& g[3].frame.size.width == g[3].contents.size.width
            &&& g[0].frame.size.height == g[1].frame.size.height
            &&& g[3].frame.size.width == g[1].frame.size.width
            &&& g[0].contents.size.height == g[1].contents.size.height
            &&& g[3].contents.size.width == g[1].contents.size.width
            &&& g[0].contents.size.width == g[2].contents.size.width
            &&& g[2].contents.size.height == g[3].contents.size.height
            &&& g[2].contents.origin.y == g[3].contents.origin.y
            &&& g[1].contents.origin.x == g[3].contents.origin.x
        }),
{
}

/// Past the picture's own size nothing is left out: a frame at least as wide shows every column of
/// the picture, one at least as tall every row.
pub proof fn a_grown_frame_shows_the_whole_picture(picture: Size, frame: Size)
    requires
        picture.inside(1),
        frame.inside(1),
        picture.width >= 1000,
        picture.height >= 1000,
    ensures
        ({
            let g = crop_grid(picture, frame);
            &&& frame.width >= picture.width ==> g[0].contents.right() == g[1].contents.left()
                && g[2].contents.right() == g[3].contents.left()
            &&& frame.height >= picture.height && frame.width >= 0 ==> g[0].contents.bottom()
                == g[2].contents.top() && g[1].contents.bottom() == g[3].contents.top()
        }),
{
}

/// The band is forty points wide, less only where the frame's shorter side or the picture is small:
/// it is the largest that is neither over forty points nor over nine twentieths of the shorter side
/// nor over the picture.
pub proof fn the_band_is_forty_points_where_there_is_room(picture: Size, frame: Size)
    requires
        picture.inside(1),
        frame.inside(1),
        frame.width >= 0,
        frame.height >= 0,
    ensures
        ({
            let b = crop_grid(picture, frame)[1].frame.size.width;
            let right = 20 * (if picture.width >= 1000 {
                picture.width as int
            } else {
                1000
            });
            let bottom = 20 * (if picture.height >= 1000 {
                picture.height as int
            } else {
                1000
            });
            &&& 0 <= b <= 800_000 && b <= 9 * frame.width && b <= 9 * frame.height
            &&& b <= right && b <= bottom
            &&& b == 800_000 || b == 9 * frame.width || b == 9 * frame.height || b == right || b
                == bottom
            &&& 20 * b <= 9 * (20 * frame.width)
        }),
{
}

/// Halfway there the frame is the mean of its ends, every step goes the same way, and turning back
/// runs through the same frames.
pub proof fn lerp_goes_evenly(from: Rect, to: Rect, step: int, steps: int)
    requires
        from.inside(8),
        to.inside(8),
        0 <= step <= steps <= 100,
    ensures
        ({
            let at = lerped(from, to, step, steps);
            &&& at.origin.x == from.origin.x * (steps - step) + to.origin.x * step
            &&& at.origin.y == from.origin.y * (steps - step) + to.origin.y * step
            &&& at.size.width == from.size.width * (steps - step) + to.size.width * step
            &&& at.size.height == from.size.height * (steps - step) + to.size.height * step
        }),
        lerped(from, to, step, steps) == lerped(to, from, steps - step, steps),
{
    weighed(from.origin.x as int, to.origin.x as int, step, steps);
    weighed(from.origin.y as int, to.origin.y as int, step, steps);
    weighed(from.size.width as int, to.size.width as int, step, steps);
    weighed(from.size.height as int, to.size.height as int, step, steps);
}

proof fn weighed(a: int, b: int, step: int, steps: int)
    requires
        crate::geometry::inside(a, 8),
        crate::geometry::inside(b, 8),
        0 <= step <= steps <= 100,
    ensures
        on_the_way(a, b, step, steps) == a * (steps - step) + b * step,
        on_the_way(b, a, steps - step, steps) == on_the_way(a, b, step, steps),
        i64::MIN <= on_the_way(a, b, step, steps) <= i64::MAX,
{
    assert(a * steps + (b - a) * step == a * (steps - step) + b * step) by (nonlinear_arith);
    assert(b * steps + (a - b) * (steps - step) == a * (steps - step) + b * step)
        by (nonlinear_arith);
    assert(-(72_057_594_037_927_936 * (steps - step)) <= a * (steps - step)
        <= 72_057_594_037_927_936 * (steps - step)) by (nonlinear_arith)
        requires
            -72_057_594_037_927_936 <= a <= 72_057_594_037_927_936,
            0 <= steps - step,
    ;
    assert(-(72_057_594_037_927_936 * step) <= b * step <= 72_057_594_037_927_936 * step)
        by (nonlinear_arith)
        requires
            -72_057_594_037_927_936 <= b <= 72_057_594_037_927_936,
            0 <= step,
    ;
}

/// A picture is stretched over a frame it matches, and cropped while the frame resizes or has left
/// the picture's shape; only a destination the picture cannot cover has it stretched even then.
pub proof fn a_picture_is_cropped_only_where_it_covers(
    covered: Extent,
    from: Size,
    to: Size,
    mode: ContentMode,
    held: ContentMode,
)
    requires
        call_ensures(content_mode, (covered, from, to), mode),
        call_ensures(placeholder_mode, (covered, to), held),
    ensures
        held == ContentMode::Crop <==> !outgrown(covered, to),
        outgrown(covered, to) ==> mode == ContentMode::Stretch,
        !resizes(from, to) && fitting(covered, (from.width, from.height)) ==> mode
            == ContentMode::Stretch,
        (resizes(from, to) || !fitting(covered, (from.width, from.height))) && !outgrown(
            covered,
            to,
        ) ==> mode == ContentMode::Crop,
{
}

/// A ring is never rebuilt while a resize rides; a matching one is always swapped in place, and an
/// unlike one is rebuilt as soon as nothing rides.
pub proof fn a_ring_waits_for_the_resize(
    resize_until: Option<u64>,
    now: u64,
    riding: bool,
    worn_matches: bool,
    action: DressingAction,
)
    requires
        call_ensures(resize_in_flight, (resize_until, now), riding),
        call_ensures(dressing_rebuild_allowed, (riding, worn_matches), action),
    ensures
        riding <==> resize_until is Some && now < resize_until->0,
        worn_matches <==> action == DressingAction::SwapInPlace,
        action == DressingAction::Rebuild <==> !worn_matches && !riding,
        action == DressingAction::Defer <==> !worn_matches && riding,
{
}

/// The pieces drawn show every edge of the picture at the same edge of the frame, and the corner one
/// to one.
pub proof fn the_pieces_drawn_show_every_edge(picture: Size, frame: Size, drawn: [CropPiece; 4])
    requires
        picture.inside(1),
        frame.inside(1),
        picture.width >= 1000,
        picture.height >= 1000,
        frame.width >= 0,
        frame.height >= 0,
        call_ensures(crop_pieces, (picture, frame), drawn),
    ensures
        drawn@[0].contents.origin.x == 0 && drawn@[0].contents.origin.y == 0,
        drawn@[1].contents.origin.x + drawn@[1].contents.size.width == 20 * picture.width,
        drawn@[1].contents.origin.y == 0 && drawn@[1].contents.size == drawn@[1].frame.size,
        drawn@[2].contents.origin.x == 0,
        drawn@[2].contents.origin.y + drawn@[2].contents.size.height == 20 * picture.height,
        drawn@[3].contents.origin.x + drawn@[3].contents.size.width == 20 * picture.width,
        drawn@[3].contents.origin.y + drawn@[3].contents.size.height == 20 * picture.height,
        drawn@[3].frame.origin.x + drawn@[3].frame.size.width == 20 * frame.width,
        drawn@[3].frame.origin.y + drawn@[3].frame.size.height == 20 * frame.height,
{
    every_edge_shows_the_pictures_edge(picture, frame);
    bands_never_stretch(picture, frame);
    crop_pieces_tile_the_frame(picture, frame);
}

} // verus!
