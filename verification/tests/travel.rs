//! Where tiles start, where they end, and which are worth drawing.
use rini::geometry::{Point, Rect, Size};
use rini::travel::min_on_screen;

/// A point, in points.
#[derive(Clone, Copy, PartialEq, Debug)]
struct CGPoint {
    x: f64,
    y: f64,
}

impl CGPoint {
    fn new(x: f64, y: f64) -> Self {
        CGPoint { x, y }
    }
}

/// An extent, in points.
#[derive(Clone, Copy, PartialEq, Debug)]
struct CGSize {
    width: f64,
    height: f64,
}

impl CGSize {
    fn new(width: f64, height: f64) -> Self {
        CGSize { width, height }
    }
}

/// A frame, in points.
#[derive(Clone, Copy, PartialEq, Debug)]
struct CGRect {
    origin: CGPoint,
    size: CGSize,
}

impl CGRect {
    fn new(origin: CGPoint, size: CGSize) -> Self {
        CGRect { origin, size }
    }

    fn max(&self) -> CGPoint {
        CGPoint::new(self.origin.x + self.size.width, self.origin.y + self.size.height)
    }

    fn mid(&self) -> CGPoint {
        CGPoint::new(
            self.origin.x + self.size.width / 2.0,
            self.origin.y + self.size.height / 2.0,
        )
    }
}

/// Points, in thousandths.
fn pt(points: f64) -> i64 {
    (points * 1000.0).round() as i64
}

fn point(p: CGPoint) -> Point {
    Point::new(pt(p.x), pt(p.y))
}

fn extent(s: CGSize) -> Size {
    Size::new(pt(s.width), pt(s.height))
}

fn frame_of(r: CGRect) -> Rect {
    Rect::new(point(r.origin), extent(r.size))
}

fn in_points(r: Rect) -> CGRect {
    CGRect::new(
        CGPoint::new(r.origin.x as f64 / 1000.0, r.origin.y as f64 / 1000.0),
        CGSize::new(r.size.width as f64 / 1000.0, r.size.height as f64 / 1000.0),
    )
}

fn rect(x: f64, y: f64, w: f64, h: f64) -> CGRect {
    CGRect::new(CGPoint::new(x, y), CGSize::new(w, h))
}

fn is_off_screen(display: CGRect, window: CGRect) -> bool {
    rini::geometry::is_off_screen(frame_of(display), frame_of(window))
}

fn park_entry_frame(park: CGRect, destination: CGRect, display: CGRect) -> CGRect {
    in_points(rini::geometry::park_entry_frame(
        frame_of(park),
        frame_of(destination),
        frame_of(display),
    ))
}

fn surface_travel(frame: CGRect, from: CGPoint, to: CGPoint, pinned: bool) -> (CGRect, CGRect) {
    let (a, b) = rini::surface::surface_travel(frame_of(frame), point(from), point(to), pinned);
    (in_points(a), in_points(b))
}

fn start_is_synthetic(actual: CGRect, from: CGRect, to: CGRect) -> bool {
    rini::travel::start_is_synthetic(frame_of(actual), frame_of(from), frame_of(to))
}

fn shows_enough(at: CGRect, display: CGRect, moving: bool) -> bool {
    rini::travel::shows_enough(frame_of(at), frame_of(display), moving)
}

fn is_moving(from: CGRect, to: CGRect) -> bool {
    rini::travel::is_moving(frame_of(from), frame_of(to))
}

fn translated(frame: CGRect, by: CGPoint) -> CGRect {
    in_points(rini::travel::translated(frame_of(frame), point(by)))
}

fn resolve_start(
    actual: Option<CGRect>,
    from: CGRect,
    to: CGRect,
    display: CGRect,
    travel: Option<CGPoint>,
) -> CGRect {
    in_points(rini::travel::resolve_start(
        actual.map(frame_of),
        frame_of(from),
        frame_of(to),
        frame_of(display),
        travel.map(point),
    ))
}

fn resolve_end(start: CGRect, to: CGRect, display: CGRect, travel: Option<CGPoint>) -> CGRect {
    in_points(rini::travel::resolve_end(
        frame_of(start),
        frame_of(to),
        frame_of(display),
        travel.map(point),
    ))
}

fn neighbour_travel(
    subject: CGRect,
    others: &[(CGRect, CGRect, bool)],
    display: CGRect,
) -> Option<CGPoint> {
    let others = others.iter().map(|(a, b, f)| (frame_of(*a), frame_of(*b), *f)).collect();
    rini::travel::neighbour_travel(frame_of(subject), &others, frame_of(display))
        .map(|p| CGPoint::new(p.x as f64 / 1000.0, p.y as f64 / 1000.0))
}

fn travel_subject(from: CGRect, to: CGRect, display: CGRect) -> CGRect {
    in_points(rini::travel::travel_subject(frame_of(from), frame_of(to), frame_of(display)))
}

const DISPLAY: CGRect = CGRect {
    origin: CGPoint { x: 0.0, y: 0.0 },
    size: CGSize { width: 1728.0, height: 1117.0 },
};
const RUNS: usize = 200;

struct Gen(u64);

impl Gen {
    fn next(&mut self) -> u64 {
        self.0 = self.0.wrapping_mul(6364136223846793005).wrapping_add(1442695040888963407);
        self.0 >> 11
    }

    fn below(&mut self, n: u64) -> u64 {
        self.next() % n
    }

    fn pt(&mut self, lo: f64, hi: f64) -> f64 {
        lo + self.below((hi - lo) as u64 + 1) as f64
    }

    fn coin(&mut self) -> bool {
        self.below(2) == 0
    }

    fn on_screen(&mut self) -> CGRect {
        let w = self.pt(400.0, 1720.0);
        let h = self.pt(600.0, 1081.0);
        let x = self.pt(-w / 4.0, DISPLAY.size.width - w * 0.75);
        rect(x, 32.0, w, h)
    }

    fn park(&mut self, size: CGSize) -> CGRect {
        let x = if self.coin() {
            DISPLAY.size.width - 1.0
        } else {
            DISPLAY.origin.x - size.width + 1.0
        };
        rect(x, DISPLAY.size.height - 1.0, size.width, size.height)
    }
}

#[test]
fn a_strip_movement_translates_every_window_by_the_same_vector() {
    let from_offset = CGPoint::new(0.0, 0.0);
    let to_offset = CGPoint::new(-861.0, 1117.0);
    let frames = [
        rect(4.0, 32.0, 859.0, 1081.0),
        rect(867.0, 32.0, 859.0, 1081.0),
        rect(4.0, 1149.0, 1720.0, 1081.0),
    ];
    for frame in frames {
        let (from, to) = surface_travel(frame, from_offset, to_offset, false);
        assert_eq!(from, frame, "at rest the viewport offset is zero");
        assert_eq!(to.origin.x - from.origin.x, 861.0);
        assert_eq!(to.origin.y - from.origin.y, -1117.0);
        assert_eq!(to.size, frame.size, "a strip movement never resizes");
    }
}

#[test]
fn a_pinned_window_stands_still() {
    let frame = rect(224.0, 95.0, 1280.0, 960.0);
    let (from, to) = surface_travel(frame, CGPoint::new(100.0, 0.0), CGPoint::new(-4000.0, 0.0), true);
    assert_eq!(from, frame);
    assert_eq!(to, frame);
}

#[test]
fn an_invented_start_for_a_window_at_rest_is_honoured() {
    let at_rest = rect(4.0, 32.0, 859.0, 1081.0);
    let offset = rect(-396.0, 32.0, 859.0, 1081.0);
    assert!(start_is_synthetic(at_rest, offset, at_rest));
}

#[test]
fn real_drift_is_not_synthetic() {
    let reported = rect(4.0, 32.0, 859.0, 1081.0);
    let destination = rect(867.0, 32.0, 859.0, 1081.0);
    let really_at = rect(400.0, 32.0, 859.0, 1081.0);
    assert!(!start_is_synthetic(really_at, reported, destination));
}

#[test]
fn a_standing_request_is_not_synthetic() {
    let frame = rect(4.0, 32.0, 859.0, 1081.0);
    assert!(!start_is_synthetic(frame, frame, frame));
}

#[test]
fn a_wide_window_with_a_real_share_visible_is_drawn() {
    let display = rect(0.0, 0.0, 1728.0, 1117.0);
    let kiro = rect(1439.0, 32.0, 1720.0, 1081.0);
    assert!(shows_enough(kiro, display, true));
}

#[test]
fn a_parked_sliver_is_still_skipped() {
    let display = rect(0.0, 0.0, 1728.0, 1117.0);
    let parked = rect(1688.0, 32.0, 859.0, 1081.0);
    assert!(!shows_enough(parked, display, true));
    assert!(shows_enough(parked, display, false));
}

#[test]
fn a_window_that_is_not_going_anywhere_is_not_moving() {
    let frame = CGRect::new(CGPoint::new(502.0, 135.0), CGSize::new(723.0, 879.0));
    assert!(!is_moving(frame, frame));
}

#[test]
fn a_still_window_earns_its_tile_with_any_part_on_screen() {
    assert!(min_on_screen((1, 1 << 100), false) && !min_on_screen((1, 1 << 100), true));
    assert!(!min_on_screen((0, 1), false), "entirely off screen is still not worth drawing");
    assert!(min_on_screen((1, 4), true), "a quarter is enough");
    assert!(!min_on_screen((249_999, 1_000_000), true), "less is not");
}

#[test]
fn a_window_that_changes_position_or_size_is_moving() {
    let frame = CGRect::new(CGPoint::new(4.0, 32.0), CGSize::new(859.0, 1081.0));
    let moved = CGRect::new(CGPoint::new(865.0, 32.0), CGSize::new(859.0, 1081.0));
    let lowered = CGRect::new(CGPoint::new(4.0, 1149.0), CGSize::new(859.0, 1081.0));
    let widened = CGRect::new(CGPoint::new(4.0, 32.0), CGSize::new(1720.0, 1081.0));
    assert!(is_moving(frame, moved));
    assert!(is_moving(frame, lowered));
    assert!(is_moving(frame, widened));
}

const REMAP_SLOT: CGRect = CGRect {
    origin: CGPoint { x: 4.0, y: 32.0 },
    size: CGSize { width: 1720.0, height: 1081.0 },
};
const REMAP_PARK: CGRect = CGRect {
    origin: CGPoint { x: 1727.0, y: 1116.0 },
    size: CGSize { width: 1720.0, height: 1081.0 },
};
const REMAP_RIGHT_EDGE: CGRect = CGRect {
    origin: CGPoint { x: 1728.0, y: 32.0 },
    size: CGSize { width: 1720.0, height: 1081.0 },
};

#[test]
fn a_41pt_park_enters_from_the_right_edge() {
    let real = rect(1727.0, 1076.0, 1720.0, 1081.0);
    assert!(!is_off_screen(DISPLAY, real));
    assert_eq!(resolve_start(Some(real), REMAP_PARK, REMAP_SLOT, DISPLAY, None), REMAP_RIGHT_EDGE);
}

#[test]
fn a_52pt_park_enters_from_the_right_edge() {
    let real = rect(1727.0, 1065.0, 859.0, 1081.0);
    let slot = rect(867.0, 32.0, 859.0, 1081.0);
    let park = rect(1727.0, 1116.0, 859.0, 1081.0);
    assert!(!is_off_screen(DISPLAY, real));
    assert_eq!(
        resolve_start(Some(real), park, slot, DISPLAY, None),
        rect(1728.0, 32.0, 859.0, 1081.0)
    );
}

#[test]
fn a_park_the_server_reports_at_its_slot_enters_from_the_edge() {
    assert_eq!(resolve_start(Some(REMAP_SLOT), REMAP_PARK, REMAP_SLOT, DISPLAY, None), REMAP_RIGHT_EDGE);
}

#[test]
fn a_park_with_no_server_answer_enters_from_the_edge() {
    assert_eq!(resolve_start(None, REMAP_PARK, REMAP_SLOT, DISPLAY, None), REMAP_RIGHT_EDGE);
}

#[test]
fn a_synthetic_start_on_screen_is_still_honoured() {
    let from = rect(4.0, 32.0, 859.0, 1081.0);
    let to = rect(867.0, 32.0, 859.0, 1081.0);
    assert_eq!(resolve_start(Some(to), from, to, DISPLAY, None), from);
}

#[test]
fn drift_on_screen_starts_from_the_servers_frame() {
    let from = rect(4.0, 32.0, 859.0, 1081.0);
    let real = rect(120.0, 32.0, 859.0, 1081.0);
    let to = rect(867.0, 32.0, 859.0, 1081.0);
    assert_eq!(resolve_start(Some(real), from, to, DISPLAY, None), real);
}

#[test]
fn any_corner_park_enters_from_its_own_edge() {
    let mut rng = Gen(52);
    for _ in 0..RUNS {
        let to = rng.on_screen();
        let from = rng.park(to.size);
        let clamp = rng.pt(0.0, 60.0);
        let real = match rng.below(3) {
            0 => Some(from),
            1 => Some(rect(from.origin.x, from.origin.y - clamp, to.size.width, to.size.height)),
            _ => Some(to),
        };
        let got = resolve_start(real, from, to, DISPLAY, None);
        let parked_left = from.mid().x < DISPLAY.mid().x;
        let expected_x = if parked_left {
            DISPLAY.origin.x - to.size.width
        } else {
            DISPLAY.max().x
        };
        assert_eq!(got.origin.y, to.origin.y, "seed 52: row of {to:?}, got {got:?}");
        assert_eq!(got.size, to.size, "seed 52: size of {to:?}, got {got:?}");
        assert_eq!(got.origin.x, expected_x, "seed 52: park {from:?} real {real:?}, got {got:?}");
    }
}

const EXIT_SLOT: CGRect = CGRect {
    origin: CGPoint { x: 867.0, y: 32.0 },
    size: CGSize { width: 859.0, height: 1081.0 },
};
const EXIT_RIGHT_PARK: CGRect = CGRect {
    origin: CGPoint { x: 1727.0, y: 1116.0 },
    size: CGSize { width: 859.0, height: 1081.0 },
};
const EXIT_LEFT_PARK: CGRect = CGRect {
    origin: CGPoint { x: -858.0, y: 1116.0 },
    size: CGSize { width: 859.0, height: 1081.0 },
};

#[test]
fn a_window_leaving_for_the_right_park_exits_past_the_right_edge() {
    assert_eq!(
        resolve_end(EXIT_SLOT, EXIT_RIGHT_PARK, DISPLAY, None),
        rect(DISPLAY.max().x, EXIT_SLOT.origin.y, EXIT_SLOT.size.width, EXIT_SLOT.size.height)
    );
}

#[test]
fn a_window_leaving_for_the_left_park_exits_past_the_left_edge() {
    assert_eq!(
        resolve_end(EXIT_SLOT, EXIT_LEFT_PARK, DISPLAY, None),
        rect(
            DISPLAY.origin.x - EXIT_SLOT.size.width,
            EXIT_SLOT.origin.y,
            EXIT_SLOT.size.width,
            EXIT_SLOT.size.height
        )
    );
}

#[test]
fn a_destination_on_screen_is_unchanged() {
    let to = rect(4.0, 32.0, 859.0, 1081.0);
    assert_eq!(resolve_end(EXIT_SLOT, to, DISPLAY, None), to);
}

#[test]
fn a_start_already_parked_is_unchanged() {
    assert_eq!(resolve_end(EXIT_LEFT_PARK, EXIT_RIGHT_PARK, DISPLAY, None), EXIT_RIGHT_PARK);
}

#[test]
fn exit_is_relative_to_the_display_it_happens_on() {
    let display = rect(-670.0, -1692.0, 3008.0, 1692.0);
    let start = rect(-666.0, -1660.0, 859.0, 1081.0);
    let park = rect(2337.0, -1.0, 859.0, 1081.0);
    assert_eq!(
        resolve_end(start, park, display, None),
        rect(2338.0, -1660.0, 859.0, 1081.0)
    );
}

#[test]
fn any_exit_to_a_corner_park_is_horizontal() {
    let mut rng = Gen(53);
    for _ in 0..RUNS {
        let start = rng.on_screen();
        let park = rng.park(start.size);
        let got = resolve_end(start, park, DISPLAY, None);
        let parked_left = park.mid().x < DISPLAY.mid().x;
        let expected_x = if parked_left {
            DISPLAY.origin.x - start.size.width
        } else {
            DISPLAY.max().x
        };
        assert_eq!(got.origin.y, start.origin.y, "seed 53: row of {start:?}, got {got:?}");
        assert_eq!(got.size, start.size, "seed 53: size of {start:?}, got {got:?}");
        assert_eq!(got.origin.x, expected_x, "seed 53: park {park:?}, got {got:?}");
    }
}

#[test]
fn leaving_then_entering_stays_in_the_row() {
    let mut rng = Gen(54);
    for _ in 0..RUNS {
        let slot = rng.on_screen();
        let park = rng.park(slot.size);
        let exit = resolve_end(slot, park, DISPLAY, None);
        let entry = resolve_start(Some(exit), park, slot, DISPLAY, None);
        assert_eq!(entry.origin.y, slot.origin.y, "seed 54: slot {slot:?}, got {entry:?}");
        assert_eq!(entry.size, slot.size, "seed 54: slot {slot:?}, got {entry:?}");
        assert_eq!(entry.origin.x, exit.origin.x, "seed 54: exit {exit:?}, entry {entry:?}");
    }
}

const W: f64 = 859.0;
const SLOT_A: CGRect = CGRect {
    origin: CGPoint { x: 4.0, y: 32.0 },
    size: CGSize { width: W, height: 1081.0 },
};
const SLOT_B: CGRect = CGRect {
    origin: CGPoint { x: 867.0, y: 32.0 },
    size: CGSize { width: W, height: 1081.0 },
};
const RIGHT_PARK: CGRect = CGRect {
    origin: CGPoint { x: 1727.0, y: 1116.0 },
    size: CGSize { width: W, height: 1081.0 },
};

fn moved(frame: CGRect, dx: f64) -> CGRect {
    translated(frame, CGPoint::new(dx, 0.0))
}

fn tile_for(index: usize, requests: &[(CGRect, CGRect, bool)]) -> (CGRect, CGRect) {
    let (from, to, floating) = requests[index];
    let others: Vec<_> = requests
        .iter()
        .enumerate()
        .filter(|(j, _)| *j != index)
        .map(|(_, r)| *r)
        .collect();
    let travel = (!floating)
        .then(|| neighbour_travel(travel_subject(from, to, DISPLAY), &others, DISPLAY))
        .flatten();
    let start = resolve_start(None, from, to, DISPLAY, travel);
    (start, resolve_end(start, to, DISPLAY, travel))
}

#[test]
fn leaving_travels_by_the_neighbours_vector() {
    let requests = [(SLOT_A, moved(SLOT_A, W), false), (SLOT_B, RIGHT_PARK, false)];
    let (start, to) = tile_for(1, &requests);
    assert_eq!(start, SLOT_B);
    assert_eq!(to, moved(SLOT_B, W), "not the corner, not the edge");
}

#[test]
fn returning_travels_by_the_neighbours_vector() {
    let requests = [(moved(SLOT_A, W), SLOT_A, false), (RIGHT_PARK, SLOT_B, false)];
    let (from, to) = tile_for(1, &requests);
    assert_eq!(to, SLOT_B);
    assert_eq!(from, moved(SLOT_B, W), "enters from where the strip was");
}

#[test]
fn no_moving_neighbour_falls_back_to_the_edge() {
    let requests = [(SLOT_A, SLOT_A, false), (SLOT_B, RIGHT_PARK, false)];
    let (_, to) = tile_for(1, &requests);
    assert_eq!(to, park_entry_frame(RIGHT_PARK, SLOT_B, DISPLAY));
    let requests = [(SLOT_A, SLOT_A, false), (RIGHT_PARK, SLOT_B, false)];
    let (from, _) = tile_for(1, &requests);
    assert_eq!(from, park_entry_frame(RIGHT_PARK, SLOT_B, DISPLAY));
}

#[test]
fn a_floating_neighbour_lends_no_travel() {
    let requests = [(SLOT_A, moved(SLOT_A, 300.0), true), (SLOT_B, RIGHT_PARK, false)];
    let (_, to) = tile_for(1, &requests);
    assert_eq!(to, park_entry_frame(RIGHT_PARK, SLOT_B, DISPLAY));
}

#[test]
fn a_neighbour_that_only_resizes_lends_no_travel() {
    let grown = rect(4.0, 32.0, W + 200.0, 1081.0);
    let requests = [(SLOT_A, grown, false), (SLOT_B, RIGHT_PARK, false)];
    assert_eq!(neighbour_travel(SLOT_B, &requests[..1], DISPLAY), None);
}

#[test]
fn a_parked_neighbour_lends_no_travel() {
    let left_park = rect(-W + 1.0, 1116.0, W, 1081.0);
    let others = [(left_park, SLOT_A, false), (RIGHT_PARK, moved(RIGHT_PARK, -5.0), false)];
    assert_eq!(neighbour_travel(SLOT_B, &others, DISPLAY), None);
}

#[test]
fn the_nearest_neighbour_by_centre_x_wins() {
    let far = rect(4.0, 32.0, 400.0, 1081.0);
    let near = rect(1200.0, 32.0, 400.0, 1081.0);
    let subject = rect(1500.0, 32.0, 200.0, 1081.0);
    let others = [(far, moved(far, 100.0), false), (near, moved(near, -250.0), false)];
    assert_eq!(neighbour_travel(subject, &others, DISPLAY), Some(CGPoint::new(-250.0, 0.0)));
    let others = [(near, moved(near, -250.0), false), (far, moved(far, 100.0), false)];
    assert_eq!(neighbour_travel(subject, &others, DISPLAY), Some(CGPoint::new(-250.0, 0.0)));
}

#[test]
fn an_open_moves_the_displaced_columns_as_one_body() {
    let mut rng = Gen(61);
    for _ in 0..RUNS {
        let n = rng.below(4) as usize + 2;
        let w = rng.pt(300.0, 1680.0 / n as f64 - 4.0);
        let k = rng.below(n as u64 - 1) as usize;
        let columns: Vec<CGRect> =
            (0..n).map(|i| rect(4.0 + i as f64 * (w + 4.0), 32.0, w, 1081.0)).collect();
        let park = rect(DISPLAY.max().x - 1.0, DISPLAY.max().y - 1.0, w, 1081.0);
        let mut requests: Vec<(CGRect, CGRect, bool)> = columns
            .iter()
            .enumerate()
            .map(|(i, c)| {
                let to = if i < k {
                    *c
                } else if i == n - 1 {
                    park
                } else {
                    moved(*c, w)
                };
                (*c, to, false)
            })
            .collect();
        requests.push((columns[k], columns[k], false));
        for i in 0..n {
            let (from, to) = tile_for(i, &requests);
            let dx = to.origin.x - from.origin.x;
            let dy = to.origin.y - from.origin.y;
            let want = if i >= k { w } else { 0.0 };
            assert_eq!((dx, dy), (want, 0.0), "seed 61: n={n} w={w} k={k} i={i}");
            assert_eq!(to.size, from.size, "seed 61: n={n} w={w} k={k} i={i}");
        }
    }
}

#[test]
fn a_close_pulls_the_displaced_columns_back_as_one_body() {
    let mut rng = Gen(62);
    for _ in 0..RUNS {
        let n = rng.below(4) as usize + 2;
        let w = rng.pt(300.0, 1680.0 / n as f64 - 4.0);
        let k = rng.below(n as u64 - 1) as usize;
        let columns: Vec<CGRect> =
            (0..n).map(|i| rect(4.0 + i as f64 * (w + 4.0), 32.0, w, 1081.0)).collect();
        let park = rect(DISPLAY.max().x - 1.0, DISPLAY.max().y - 1.0, w, 1081.0);
        let requests: Vec<(CGRect, CGRect, bool)> = columns
            .iter()
            .enumerate()
            .map(|(i, c)| {
                let from = if i < k {
                    *c
                } else if i == n - 1 {
                    park
                } else {
                    moved(*c, w)
                };
                (from, *c, false)
            })
            .collect();
        for i in 0..n {
            let (from, to) = tile_for(i, &requests);
            let dx = to.origin.x - from.origin.x;
            let dy = to.origin.y - from.origin.y;
            let want = if i >= k { -w } else { 0.0 };
            assert_eq!((dx, dy), (want, 0.0), "seed 62: n={n} w={w} k={k} i={i}");
            assert_eq!(to.size, from.size, "seed 62: n={n} w={w} k={k} i={i}");
            if i == n - 1 {
                assert_eq!(from, moved(columns[i], w), "seed 62: n={n} w={w} k={k}");
            }
        }
    }
}

#[test]
fn a_shown_share_is_exact() {
    let display = rect(0.0, 0.0, 1000.0, 1000.0);
    let half_out = rect(-50.0, 100.0, 100.0, 200.0);
    let (shown, of) = rini::travel::on_screen_fraction(frame_of(half_out), frame_of(display));
    assert_eq!(2 * shown, of);
    assert_eq!(
        rini::travel::on_screen_extent(frame_of(half_out), frame_of(display)),
        (50_000, 200_000)
    );
}

#[test]
fn a_movement_is_worth_drawing_when_some_of_it_is_seen() {
    let display = frame_of(DISPLAY);
    let below = rect(4.0, 1200.0, 859.0, 1081.0);
    let above = rect(4.0, -1200.0, 859.0, 1081.0);
    assert!(rini::travel::worth_animating(frame_of(below), frame_of(above), display));
    assert!(!rini::travel::worth_animating(frame_of(below), frame_of(below), display));
    let flat = rect(4.0, 32.0, 859.0, 0.0);
    assert!(!rini::travel::worth_animating(frame_of(flat), frame_of(flat), display));
}

#[test]
fn overlay_coordinates_start_at_the_overlay() {
    let overlay = rect(-670.0, -1692.0, 3008.0, 1692.0);
    let window = rect(-666.0, -1660.0, 859.0, 1081.0);
    assert_eq!(
        in_points(rini::surface::to_overlay_space(frame_of(window), frame_of(overlay))),
        rect(4.0, 32.0, 859.0, 1081.0)
    );
    assert_eq!(
        rini::surface::pan_travel(Point::new(0, 0), Point::new(-861_000, 1_117_000)),
        Point::new(861_000, -1_117_000)
    );
}
