//! Points, sizes and frames on a display, in thousandths of a point.
//!
//! Every coordinate is a whole number of thousandths, so the rules that compare frames are exact:
//! sums and products are taken in `i128`, and no comparison is ever rounded.
use vstd::prelude::*;

verus! {

/// One point, in the unit every coordinate is counted in.
pub const PT: i64 = 1_000;

/// The largest whole number of thousandths that a double holds together with all smaller ones.
/// Frames handed over by the window server stay inside it.
pub const LIMIT: i64 = 9_007_199_254_740_992;

/// How close two coordinates are when they count as the same: a tenth of a point.
pub const SAME_AS_TOLERANCE: i64 = 100;

/// A frame keeps only a sliver within this many points on screen when the system refuses the
/// requested off-screen position.
pub const PARK_CLAMP_PX: i64 = 40_000;

/// A position.
#[derive(Clone, Copy, PartialEq, Eq, Structural, Debug)]
pub struct Point {
    pub x: i64,
    pub y: i64,
}

/// An extent.
#[derive(Clone, Copy, PartialEq, Eq, Structural, Debug)]
pub struct Size {
    pub width: i64,
    pub height: i64,
}

/// A frame: its top left corner and its extent.
#[derive(Clone, Copy, PartialEq, Eq, Structural, Debug)]
pub struct Rect {
    pub origin: Point,
    pub size: Size,
}

/// Whether `v` lies inside `k` times [`LIMIT`].
pub open spec fn inside(v: int, k: int) -> bool {
    -(k * LIMIT) <= v <= k * LIMIT
}

/// The smaller of two numbers.
pub open spec fn lesser(a: int, b: int) -> int {
    if a <= b {
        a
    } else {
        b
    }
}

/// The larger of two numbers.
pub open spec fn greater(a: int, b: int) -> int {
    if a >= b {
        a
    } else {
        b
    }
}

/// The distance of `a` from zero.
pub open spec fn distance(a: int) -> int {
    if a < 0 {
        -a
    } else {
        a
    }
}

/// The smaller of two numbers.
pub fn lesser_of(a: i128, b: i128) -> (r: i128)
    ensures
        r == lesser(a as int, b as int),
{
    if a <= b {
        a
    } else {
        b
    }
}

/// The larger of two numbers.
pub fn greater_of(a: i128, b: i128) -> (r: i128)
    ensures
        r == greater(a as int, b as int),
{
    if a >= b {
        a
    } else {
        b
    }
}

/// The distance between two coordinates.
pub fn distance_between(a: i64, b: i64) -> (r: i128)
    ensures
        r == distance(a - b),
{
    let d: i128 = a as i128 - b as i128;
    if d < 0 {
        -d
    } else {
        d
    }
}

impl Point {
    /// The point at `(x, y)`.
    pub fn new(x: i64, y: i64) -> (r: Point)
        ensures
            r == (Point { x, y }),
    {
        Point { x, y }
    }

    /// Both coordinates lie inside `k` times [`LIMIT`].
    pub open spec fn inside(self, k: int) -> bool {
        inside(self.x as int, k) && inside(self.y as int, k)
    }
}

impl Size {
    /// The extent `width` by `height`.
    pub fn new(width: i64, height: i64) -> (r: Size)
        ensures
            r == (Size { width, height }),
    {
        Size { width, height }
    }

    /// Both extents lie inside `k` times [`LIMIT`].
    pub open spec fn inside(self, k: int) -> bool {
        inside(self.width as int, k) && inside(self.height as int, k)
    }
}

impl Rect {
    /// The frame at `origin` with extent `size`.
    pub fn new(origin: Point, size: Size) -> (r: Rect)
        ensures
            r == (Rect { origin, size }),
    {
        Rect { origin, size }
    }

    /// Every coordinate and extent lies inside `k` times [`LIMIT`].
    pub open spec fn inside(self, k: int) -> bool {
        self.origin.inside(k) && self.size.inside(k)
    }

    /// The left edge.
    pub open spec fn left(self) -> int {
        self.origin.x as int
    }

    /// The top edge.
    pub open spec fn top(self) -> int {
        self.origin.y as int
    }

    /// The right edge.
    pub open spec fn right(self) -> int {
        self.origin.x + self.size.width
    }

    /// The bottom edge.
    pub open spec fn bottom(self) -> int {
        self.origin.y + self.size.height
    }

    /// The same frame moved by `(dx, dy)`.
    pub open spec fn moved(self, dx: int, dy: int) -> Rect {
        Rect {
            origin: Point { x: (self.origin.x + dx) as i64, y: (self.origin.y + dy) as i64 },
            size: self.size,
        }
    }

    /// The right edge.
    pub fn max_x(&self) -> (r: i128)
        ensures
            r == self.right(),
    {
        self.origin.x as i128 + self.size.width as i128
    }

    /// The bottom edge.
    pub fn max_y(&self) -> (r: i128)
        ensures
            r == self.bottom(),
    {
        self.origin.y as i128 + self.size.height as i128
    }

    /// The same frame moved by `by`.
    pub fn translated(&self, by: Point) -> (r: Rect)
        requires
            i64::MIN <= self.origin.x + by.x <= i64::MAX,
            i64::MIN <= self.origin.y + by.y <= i64::MAX,
        ensures
            r == self.moved(by.x as int, by.y as int),
            r.left() == self.left() + by.x,
            r.top() == self.top() + by.y,
            r.size == self.size,
    {
        Rect { origin: Point { x: self.origin.x + by.x, y: self.origin.y + by.y }, size: self.size }
    }
}

/// `v` rounded to whole points, halves away from zero.
pub open spec fn rounded(v: int) -> int {
    if v >= 0 {
        ((v + 500) / 1000) * 1000
    } else {
        -(((500 - v) / 1000) * 1000)
    }
}

/// `v` rounded to whole points, halves away from zero.
pub fn round_coordinate(v: i64) -> (r: i64)
    requires
        i64::MIN + 1_000 <= v <= i64::MAX - 1_000,
    ensures
        r == rounded(v as int),
        distance(r - v) <= 500,
{
    if v >= 0 {
        ((v + 500) / 1_000) * 1_000
    } else {
        let flipped: i64 = 500 - v;
        -((flipped / 1_000) * 1_000)
    }
}

/// Snapping to whole points.
pub trait Round: Sized {
    /// The coordinates leave room for rounding.
    spec fn roundable(&self) -> bool;

    /// `r` is this value snapped to whole points.
    spec fn rounds_to(&self, r: Self) -> bool;

    fn round(&self) -> (r: Self)
        requires
            self.roundable(),
        ensures
            self.rounds_to(r),
    ;
}

impl Round for Point {
    open spec fn roundable(&self) -> bool {
        self.inside(4)
    }

    open spec fn rounds_to(&self, r: Self) -> bool {
        r.x == rounded(self.x as int) && r.y == rounded(self.y as int)
    }

    fn round(&self) -> (r: Self) {
        Point { x: round_coordinate(self.x), y: round_coordinate(self.y) }
    }
}

impl Round for Size {
    open spec fn roundable(&self) -> bool {
        self.inside(4)
    }

    open spec fn rounds_to(&self, r: Self) -> bool {
        r.width == rounded(self.width as int) && r.height == rounded(self.height as int)
    }

    fn round(&self) -> (r: Self) {
        Size { width: round_coordinate(self.width), height: round_coordinate(self.height) }
    }
}

/// Both edges snap, so the extent absorbs the difference.
impl Round for Rect {
    open spec fn roundable(&self) -> bool {
        self.inside(2)
    }

    open spec fn rounds_to(&self, r: Self) -> bool {
        &&& r.left() == rounded(self.left())
        &&& r.top() == rounded(self.top())
        &&& r.right() == rounded(self.right())
        &&& r.bottom() == rounded(self.bottom())
    }

    fn round(&self) -> (r: Self) {
        let min: Point = self.origin.round();
        let max: Point = Point {
            x: self.origin.x + self.size.width,
            y: self.origin.y + self.size.height,
        }.round();
        Rect { origin: min, size: Size { width: max.x - min.x, height: max.y - min.y } }
    }
}

/// Closeness, coordinate by coordinate.
pub trait IsWithin: Sized {
    /// Every coordinate of the two differs by less than `how_much`.
    spec fn near(&self, how_much: int, other: Self) -> bool;

    fn is_within(&self, how_much: i64, other: Self) -> (r: bool)
        ensures
            r == self.near(how_much as int, other),
    ;
}

impl IsWithin for i64 {
    open spec fn near(&self, how_much: int, other: Self) -> bool {
        distance(*self - other) < how_much
    }

    fn is_within(&self, how_much: i64, other: Self) -> (r: bool) {
        let d: i128 = distance_between(*self, other);
        assert(self.near(how_much as int, other) == (distance(*self - other) < how_much));
        d < how_much as i128
    }
}

impl IsWithin for Point {
    open spec fn near(&self, how_much: int, other: Self) -> bool {
        distance(self.x - other.x) < how_much && distance(self.y - other.y) < how_much
    }

    fn is_within(&self, how_much: i64, other: Self) -> (r: bool) {
        self.x.is_within(how_much, other.x) && self.y.is_within(how_much, other.y)
    }
}

impl IsWithin for Size {
    open spec fn near(&self, how_much: int, other: Self) -> bool {
        distance(self.width - other.width) < how_much && distance(self.height - other.height)
            < how_much
    }

    fn is_within(&self, how_much: i64, other: Self) -> (r: bool) {
        self.width.is_within(how_much, other.width) && self.height.is_within(how_much, other.height)
    }
}

impl IsWithin for Rect {
    open spec fn near(&self, how_much: int, other: Self) -> bool {
        self.origin.near(how_much, other.origin) && self.size.near(how_much, other.size)
    }

    fn is_within(&self, how_much: i64, other: Self) -> (r: bool) {
        self.origin.is_within(how_much, other.origin) && self.size.is_within(how_much, other.size)
    }
}

/// Sameness up to a tenth of a point, not included.
pub trait SameAs: IsWithin {
    fn same_as(&self, other: Self) -> (r: bool)
        ensures
            r == self.near(SAME_AS_TOLERANCE as int, other),
    {
        self.is_within(SAME_AS_TOLERANCE, other)
    }
}

impl SameAs for Rect {

}

impl SameAs for Point {

}

impl SameAs for Size {

}

/// `a` and `b` are the same frame up to a tenth of a point.
pub open spec fn same_frame(a: Rect, b: Rect) -> bool {
    a.near(SAME_AS_TOLERANCE as int, b)
}

/// The span two intervals share; zero when they do not meet.
pub open spec fn shared(a_low: int, a_high: int, b_low: int, b_high: int) -> int {
    greater(lesser(a_high, b_high) - greater(a_low, b_low), 0)
}

/// The span two intervals share; zero when they do not meet.
pub fn shared_span(a_low: i128, a_high: i128, b_low: i128, b_high: i128) -> (r: i128)
    requires
        i64::MIN <= a_low <= i64::MAX,
        i64::MIN <= b_low <= i64::MAX,
        2 * i64::MIN <= a_high <= 2 * i64::MAX,
        2 * i64::MIN <= b_high <= 2 * i64::MAX,
    ensures
        r == shared(a_low as int, a_high as int, b_low as int, b_high as int),
{
    greater_of(lesser_of(a_high, b_high) - greater_of(a_low, b_low), 0)
}

/// How much of `window` shows on `display`, across.
pub open spec fn visible_width(display: Rect, window: Rect) -> int {
    shared(window.left(), window.right(), display.left(), display.right())
}

/// How much of `window` shows on `display`, down.
pub open spec fn visible_height(display: Rect, window: Rect) -> int {
    shared(window.top(), window.bottom(), display.top(), display.bottom())
}

/// What [`Rect`] offers beyond its fields.
pub trait CGRectExt: Sized {
    spec fn in_bounds(&self) -> bool;

    spec fn meets(&self, other: Self, r: Self) -> bool;

    spec fn holds(&self, point: Point) -> bool;

    spec fn covers(&self, other: Self) -> bool;

    spec fn area_of(&self) -> int;

    fn intersection(&self, other: &Self) -> (r: Self)
        requires
            self.in_bounds(),
            other.in_bounds(),
        ensures
            self.meets(*other, r),
    ;

    fn contains(&self, point: Point) -> (r: bool)
        ensures
            r == self.holds(point),
    ;

    fn contains_rect(&self, other: Self) -> (r: bool)
        ensures
            r == self.covers(other),
    ;

    fn area(&self) -> (r: i128)
        ensures
            r == self.area_of(),
    ;
}

impl CGRectExt for Rect {
    open spec fn in_bounds(&self) -> bool {
        self.inside(64)
    }

    /// `r` is the part the two frames share: it starts where both have begun, and an axis on
    /// which they do not meet has no extent.
    open spec fn meets(&self, other: Self, r: Self) -> bool {
        &&& r.left() == greater(self.left(), other.left())
        &&& r.top() == greater(self.top(), other.top())
        &&& r.size.width == visible_width(*self, other)
        &&& r.size.height == visible_height(*self, other)
    }

    /// The edges belong to the frame.
    open spec fn holds(&self, point: Point) -> bool {
        self.left() <= point.x <= self.right() && self.top() <= point.y <= self.bottom()
    }

    open spec fn covers(&self, other: Self) -> bool {
        &&& self.left() <= other.left()
        &&& self.top() <= other.top()
        &&& self.right() >= other.right()
        &&& self.bottom() >= other.bottom()
    }

    /// In square thousandths of a point.
    open spec fn area_of(&self) -> int {
        self.size.width * self.size.height
    }

    fn intersection(&self, other: &Self) -> (r: Self) {
        let min_x: i128 = greater_of(self.origin.x as i128, other.origin.x as i128);
        let max_x: i128 = lesser_of(self.max_x(), other.max_x());
        let min_y: i128 = greater_of(self.origin.y as i128, other.origin.y as i128);
        let max_y: i128 = lesser_of(self.max_y(), other.max_y());
        Rect {
            origin: Point { x: min_x as i64, y: min_y as i64 },
            size: Size {
                width: greater_of(max_x - min_x, 0) as i64,
                height: greater_of(max_y - min_y, 0) as i64,
            },
        }
    }

    fn contains(&self, point: Point) -> (r: bool) {
        self.origin.x <= point.x && point.x as i128 <= self.max_x() && self.origin.y <= point.y
            && point.y as i128 <= self.max_y()
    }

    fn contains_rect(&self, other: Self) -> (r: bool) {
        self.origin.x <= other.origin.x && self.origin.y <= other.origin.y && self.max_x()
            >= other.max_x() && self.max_y() >= other.max_y()
    }

    fn area(&self) -> (r: i128) {
        product(self.size.width, self.size.height)
    }
}

/// The exact product of two coordinates.
pub fn product(a: i64, b: i64) -> (r: i128)
    ensures
        r == a * b,
{
    assert(-0x4000_0000_0000_0000_0000_0000_0000_0000 <= a * b
        <= 0x4000_0000_0000_0000_0000_0000_0000_0000) by (nonlinear_arith)
        requires
            -0x8000_0000_0000_0000 <= a < 0x8000_0000_0000_0000,
            -0x8000_0000_0000_0000 <= b < 0x8000_0000_0000_0000,
    ;
    a as i128 * b as i128
}

/// Whether `window` shows nothing usable on `display`: no intersection, or a sliver within
/// [`PARK_CLAMP_PX`] on both axes.
pub open spec fn off_screen(display: Rect, window: Rect) -> bool {
    let width = visible_width(display, window);
    let height = visible_height(display, window);
    width <= 0 || height <= 0 || (width <= PARK_CLAMP_PX && height <= PARK_CLAMP_PX)
}

/// Whether `window` shows nothing usable on `display`. A column peeking in at an edge shows its
/// full height, so it is never off screen by this test.
pub fn is_off_screen(display: Rect, window: Rect) -> (r: bool)
    ensures
        r == off_screen(display, window),
{
    let width: i128 = shared_span(
        window.origin.x as i128,
        window.max_x(),
        display.origin.x as i128,
        display.max_x(),
    );
    let height: i128 = shared_span(
        window.origin.y as i128,
        window.max_y(),
        display.origin.y as i128,
        display.max_y(),
    );
    width <= 0 || height <= 0 || (width <= PARK_CLAMP_PX as i128 && height
        <= PARK_CLAMP_PX as i128)
}

/// Whether the middle of `park` lies left of the middle of `display`.
pub open spec fn parked_left(park: Rect, display: Rect) -> bool {
    park.left() + park.right() < display.left() + display.right()
}

/// Where a window parked at `park` starts towards `destination`: on the destination's row, just
/// past the display edge on the park's side.
pub open spec fn entry_frame(park: Rect, destination: Rect, display: Rect) -> Rect {
    Rect {
        origin: Point {
            x: (if parked_left(park, display) {
                display.left() - destination.size.width
            } else {
                display.right()
            }) as i64,
            y: destination.origin.y,
        },
        size: destination.size,
    }
}

/// Where a window parked at `park` should start an animation towards `destination`: the same row,
/// just past the display edge on the park's side, so it enters from the side it left by.
pub fn park_entry_frame(park: Rect, destination: Rect, display: Rect) -> (r: Rect)
    requires
        display.inside(64),
        destination.inside(64),
    ensures
        r == entry_frame(park, destination, display),
        r.right() == display.left() || r.left() == display.right(),
{
    let park_middle: i128 = park.origin.x as i128 + park.max_x();
    let display_middle: i128 = display.origin.x as i128 + display.max_x();
    let x: i64 = if park_middle < display_middle {
        display.origin.x - destination.size.width
    } else {
        display.origin.x + display.size.width
    };
    Rect { origin: Point { x, y: destination.origin.y }, size: destination.size }
}

/// Sameness does not depend on which of two frames is asked, and a frame is always its own.
pub proof fn sameness_is_symmetric(a: Rect, b: Rect)
    ensures
        same_frame(a, b) == same_frame(b, a),
        same_frame(a, a),
{
}

/// A window that enters from its park starts with nothing on the display.
pub proof fn an_entry_starts_off_screen(park: Rect, destination: Rect, display: Rect)
    requires
        display.inside(64),
        destination.inside(64),
    ensures
        off_screen(display, entry_frame(park, destination, display)),
{
}

/// Snapping an already snapped coordinate changes nothing.
pub proof fn rounding_is_idempotent(v: int)
    ensures
        rounded(rounded(v)) == rounded(v),
{
    if v >= 0 {
        let n = (v + 500) / 1000;
        assert(rounded(v) == n * 1000);
        assert((n * 1000 + 500) / 1000 == n);
    } else {
        let n = (500 - v) / 1000;
        assert(rounded(v) == -(n * 1000));
        assert((n * 1000 + 500) / 1000 == n);
    }
}

/// Snapping gives whole points, the nearest there are; a coordinate halfway between two goes to the
/// one further from zero, and the two signs are treated alike.
pub proof fn rounding_gives_the_nearest_point(v: int)
    ensures
        rounded(v) % 1000 == 0,
        -500 <= rounded(v) - v <= 500,
        rounded(v) - v == 500 ==> v > 0,
        v - rounded(v) == 500 ==> v < 0,
        rounded(-v) == -rounded(v),
        rounded(v + (if v >= 0 {
            1000int
        } else {
            -1000int
        })) == rounded(v) + (if v >= 0 {
            1000int
        } else {
            -1000int
        }),
{
}

/// A window shows on a display exactly when some part of it with an extent, more than forty points
/// across or more than forty down, lies on the display.
pub proof fn a_window_shows_by_a_part_on_the_display(display: Rect, window: Rect, part: Rect)
    requires
        display.inside(64),
        window.inside(64),
    ensures
        ({
            &&& part.size.width > 0 && part.size.height > 0
            &&& part.size.width > 40_000 || part.size.height > 40_000
            &&& part.origin.x >= window.origin.x && part.origin.y >= window.origin.y
            &&& part.origin.x + part.size.width <= window.origin.x + window.size.width
            &&& part.origin.y + part.size.height <= window.origin.y + window.size.height
            &&& part.origin.x >= display.origin.x && part.origin.y >= display.origin.y
            &&& part.origin.x + part.size.width <= display.origin.x + display.size.width
            &&& part.origin.y + part.size.height <= display.origin.y + display.size.height
        }) ==> !off_screen(display, window),
        !off_screen(display, window) ==> exists|shown: Rect|
            {
                &&& shown.size.width > 0 && shown.size.height > 0
                &&& shown.size.width > 40_000 || shown.size.height > 40_000
                &&& shown.origin.x >= window.origin.x && shown.origin.y >= window.origin.y
                &&& shown.origin.x + shown.size.width <= window.origin.x + window.size.width
                &&& shown.origin.y + shown.size.height <= window.origin.y + window.size.height
                &&& shown.origin.x >= display.origin.x && shown.origin.y >= display.origin.y
                &&& shown.origin.x + shown.size.width <= display.origin.x + display.size.width
                &&& #[trigger] shown.bottom() <= display.origin.y + display.size.height
            },
{
    if !off_screen(display, window) {
        let shown = Rect {
            origin: Point {
                x: greater(window.left(), display.left()) as i64,
                y: greater(window.top(), display.top()) as i64,
            },
            size: Size {
                width: visible_width(display, window) as i64,
                height: visible_height(display, window) as i64,
            },
        };
        assert(shown.bottom() <= display.origin.y + display.size.height);
    }
}

/// Whether a window shows does not depend on where the display stands, and a window on the display
/// shows when either of its extents is over forty points.
pub proof fn showing_is_relative_to_the_display(display: Rect, window: Rect, dx: int, dy: int)
    requires
        display.inside(64),
        window.inside(64),
        inside(dx, 64),
        inside(dy, 64),
    ensures
        off_screen(display.moved(dx, dy), window.moved(dx, dy)) == off_screen(display, window),
        off_screen(display, window) == off_screen(window, display),
        display.covers(window) && window.size.width > 0 && window.size.height > 0 && (
        window.size.width > 40_000 || window.size.height > 40_000) ==> !off_screen(display, window),
{
}

/// Two frames are the same when each of their four numbers differs by less than a tenth of a point.
pub proof fn the_same_frame_is_within_a_tenth(a: Rect, b: Rect)
    ensures
        same_frame(a, b) <==> {
            &&& -100 < a.origin.x - b.origin.x < 100
            &&& -100 < a.origin.y - b.origin.y < 100
            &&& -100 < a.size.width - b.size.width < 100
            &&& -100 < a.size.height - b.size.height < 100
        },
{
}

/// Closeness is by every number alone: less than `how_much` apart, whichever is the larger.
pub proof fn nearness_is_by_every_number(a: Rect, b: Rect, how_much: int)
    ensures
        a.origin.x.near(how_much, b.origin.x) <==> -how_much < a.origin.x - b.origin.x < how_much,
        a.origin.near(how_much, b.origin) <==> -how_much < a.origin.x - b.origin.x < how_much
            && -how_much < a.origin.y - b.origin.y < how_much,
        a.size.near(how_much, b.size) <==> -how_much < a.size.width - b.size.width < how_much
            && -how_much < a.size.height - b.size.height < how_much,
        a.near(how_much, b) <==> a.origin.near(how_much, b.origin) && a.size.near(how_much, b.size),
{
}

/// The part two frames share holds exactly the points that both hold, wherever they hold any.
pub proof fn the_shared_part_holds_what_both_hold(a: Rect, b: Rect, r: Rect, p: Point, q: Point)
    requires
        a.meets(b, r),
    ensures
        a.holds(p) && b.holds(p) ==> r.holds(p),
        a.holds(q) && b.holds(q) && r.holds(p) ==> a.holds(p) && b.holds(p),
        r.size.width >= 0 && r.size.height >= 0,
        a.size.width > 0 && b.size.width > 0 && (a.origin.x + a.size.width <= b.origin.x
            || b.origin.x + b.size.width <= a.origin.x) ==> r.size.width == 0,
        a.size.height > 0 && b.size.height > 0 && (a.origin.y + a.size.height <= b.origin.y
            || b.origin.y + b.size.height <= a.origin.y) ==> r.size.height == 0,
        r.origin.x >= a.origin.x && r.origin.x >= b.origin.x && (r.origin.x == a.origin.x
            || r.origin.x == b.origin.x),
        r.origin.y >= a.origin.y && r.origin.y >= b.origin.y && (r.origin.y == a.origin.y
            || r.origin.y == b.origin.y),
{
}

/// A frame holds its corners and everything between them; it covers another exactly when it holds
/// that one's corners, and then all of its points.
pub proof fn a_frame_covers_what_it_holds(a: Rect, b: Rect, p: Point)
    requires
        a.inside(64),
        b.inside(64),
    ensures
        a.holds(p) <==> a.origin.x <= p.x <= a.origin.x + a.size.width && a.origin.y <= p.y
            <= a.origin.y + a.size.height,
        a.covers(b) && b.holds(p) ==> a.holds(p),
        b.size.width >= 0 && b.size.height >= 0 ==> (a.covers(b) <==> a.holds(b.origin) && a.holds(
            Point {
                x: (b.origin.x + b.size.width) as i64,
                y: (b.origin.y + b.size.height) as i64,
            },
        )),
        a.area_of() == a.size.width * a.size.height,
{
}

/// A parked window enters in the row and at the size it is going to have, touching the display's edge
/// from outside: the left one when the middle of its park lies left of the display's, else the right.
pub proof fn an_entry_touches_the_edge_on_the_parks_side(
    park: Rect,
    destination: Rect,
    display: Rect,
)
    requires
        display.inside(64),
        destination.inside(64),
    ensures
        ({
            let entry = entry_frame(park, destination, display);
            &&& entry.origin.y == destination.origin.y
            &&& entry.size == destination.size
            &&& 2 * park.origin.x + park.size.width < 2 * display.origin.x + display.size.width
                ==> entry.origin.x + entry.size.width == display.origin.x
            &&& 2 * park.origin.x + park.size.width >= 2 * display.origin.x + display.size.width
                ==> entry.origin.x == display.origin.x + display.size.width
        }),
{
}

/// Two intervals share what lies in both.
pub proof fn a_shared_span_lies_in_both(a_low: int, a_high: int, b_low: int, b_high: int)
    requires
        a_low <= a_high,
        b_low <= b_high,
    ensures
        ({
            let s = shared(a_low, a_high, b_low, b_high);
            &&& 0 <= s <= a_high - a_low
            &&& s <= b_high - b_low
            &&& s == shared(b_low, b_high, a_low, a_high)
            &&& a_low <= b_low && b_high <= a_high ==> s == b_high - b_low
            &&& a_low <= b_low <= a_high <= b_high ==> s == a_high - b_low
            &&& a_high <= b_low ==> s == 0
        }),
{
}

} // verus!
