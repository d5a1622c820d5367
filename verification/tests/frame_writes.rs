//! Which final frames go out, and in what order.
use rini::geometry::{Point, Rect, Size};
use rini::ids::WindowId;

/// A point, in points.
#[derive(Clone, Copy, PartialEq, Debug)]
struct CGPoint {
    x: f64,
    y: f64,
}

impl CGPoint {
    fn new(x: f64, y: f64) -> Self {
        CGPoint { x, y }
    }
}

/// An extent, in points.
#[derive(Clone, Copy, PartialEq, Debug)]
struct CGSize {
    width: f64,
    height: f64,
}

impl CGSize {
    fn new(width: f64, height: f64) -> Self {
        CGSize { width, height }
    }
}

/// A frame, in points.
#[derive(Clone, Copy, PartialEq, Debug)]
struct CGRect {
    origin: CGPoint,
    size: CGSize,
}

impl CGRect {
    fn new(origin: CGPoint, size: CGSize) -> Self {
        CGRect { origin, size }
    }
}

/// Points, in thousandths.
fn pt(points: f64) -> i64 {
    (points * 1000.0).round() as i64
}

fn point(p: CGPoint) -> Point {
    Point::new(pt(p.x), pt(p.y))
}

fn extent(s: CGSize) -> Size {
    Size::new(pt(s.width), pt(s.height))
}

fn frame_of(r: CGRect) -> Rect {
    Rect::new(point(r.origin), extent(r.size))
}

fn in_points(r: Rect) -> CGRect {
    CGRect::new(
        CGPoint::new(r.origin.x as f64 / 1000.0, r.origin.y as f64 / 1000.0),
        CGSize::new(r.size.width as f64 / 1000.0, r.size.height as f64 / 1000.0),
    )
}

fn rect(x: f64, y: f64, w: f64, h: f64) -> CGRect {
    CGRect::new(CGPoint::new(x, y), CGSize::new(w, h))
}

fn is_off_screen(display: CGRect, window: CGRect) -> bool {
    rini::geometry::is_off_screen(frame_of(display), frame_of(window))
}

fn frame_send_order(frames: Vec<(WindowId, CGRect)>, display: CGRect) -> Vec<(WindowId, CGRect)> {
    let frames = frames.into_iter().map(|(w, r)| (w, frame_of(r))).collect();
    rini::frame_writes::frame_send_order(frames, frame_of(display))
        .into_iter()
        .map(|(w, r)| (w, in_points(r)))
        .collect()
}

fn is_park_to_park(current: CGRect, target: CGRect, display: CGRect) -> bool {
    rini::frame_writes::is_park_to_park(frame_of(current), frame_of(target), frame_of(display))
}

fn frame_write_needed(actual: Option<CGRect>, target: CGRect, display: CGRect) -> bool {
    rini::frame_writes::frame_write_needed(
        actual.map(frame_of),
        frame_of(target),
        frame_of(display),
    )
}

fn display() -> CGRect {
    CGRect::new(CGPoint::new(0.0, 0.0), CGSize::new(1728.0, 1117.0))
}

fn ids(order: &[(WindowId, CGRect)]) -> Vec<WindowId> {
    order.iter().map(|(w, _)| *w).collect()
}

#[test]
fn on_screen_destinations_are_sent_before_parks() {
    let leaving = WindowId::new(1, 1);
    let arriving = WindowId::new(1, 2);
    let park = rect(1728.0, 32.0, 1720.0, 1081.0);
    let slot = rect(4.0, 32.0, 1720.0, 1081.0);
    let order = frame_send_order(vec![(leaving, park), (arriving, slot)], display());
    let ids: Vec<WindowId> = order.iter().map(|(w, _)| *w).collect();
    assert_eq!(ids, vec![arriving, leaving], "park sent before the on-screen slot: {ids:?}");
}

#[test]
fn only_a_park_to_park_move_is_skipped() {
    let d = display();
    let left_park = CGRect::new(CGPoint::new(d.origin.x - 859.0 + 1.0, d.origin.y + 1116.0), CGSize::new(859.0, 1081.0));
    let right_park = CGRect::new(CGPoint::new(d.origin.x + d.size.width - 1.0, d.origin.y + 1116.0), CGSize::new(859.0, 1081.0));
    let slot = CGRect::new(CGPoint::new(d.origin.x + 4.0, d.origin.y + 32.0), CGSize::new(859.0, 1081.0));
    assert!(is_park_to_park(left_park, right_park, d));
    assert!(is_park_to_park(right_park, right_park, d));
    assert!(!is_park_to_park(right_park, slot, d), "arriving");
    assert!(!is_park_to_park(slot, right_park, d), "leaving");
    assert!(!is_park_to_park(slot, slot, d));
    let row_below = CGRect::new(CGPoint::new(slot.origin.x, d.origin.y + d.size.height + 32.0), slot.size);
    assert!(!is_park_to_park(row_below, right_park, d), "a stacked row is not a park");
    assert!(!is_park_to_park(right_park, row_below, d));
}

#[test]
fn park_write_is_judged_from_the_real_frame_not_the_model() {
    let d = display();
    let right_park = CGRect::new(CGPoint::new(d.origin.x + d.size.width - 1.0, d.origin.y + 1116.0), CGSize::new(859.0, 1081.0));
    let left_park = CGRect::new(CGPoint::new(d.origin.x - 859.0 + 1.0, d.origin.y + 1116.0), CGSize::new(859.0, 1081.0));
    let slot = CGRect::new(CGPoint::new(d.origin.x + 4.0, d.origin.y + 32.0), CGSize::new(859.0, 1081.0));
    assert!(frame_write_needed(Some(slot), right_park, d), "on-screen window must be parked");
    assert!(!frame_write_needed(Some(left_park), right_park, d), "true park-to-park is skipped");
    assert!(frame_write_needed(None, right_park, d), "unknown real frame never suppresses");
    assert!(frame_write_needed(Some(right_park), slot, d), "arrivals always go out");
}

#[test]
fn frame_send_order_partitions_stably() {
    let w = |i| WindowId::new(1, i);
    let slot_a = rect(4.0, 32.0, 859.0, 1081.0);
    let slot_b = rect(867.0, 32.0, 859.0, 1081.0);
    let park_right = rect(1727.0, 1116.0, 859.0, 1081.0);
    let park_left = rect(-858.0, 1116.0, 859.0, 1081.0);

    let mixed = vec![(w(1), park_right), (w(2), slot_a), (w(3), park_left), (w(4), slot_b)];
    let order = frame_send_order(mixed, display());
    assert_eq!(ids(&order), vec![w(2), w(4), w(1), w(3)]);

    let parked = vec![(w(1), park_right), (w(2), park_left)];
    assert_eq!(ids(&frame_send_order(parked, display())), vec![w(1), w(2)]);

    let visible = vec![(w(1), slot_b), (w(2), slot_a)];
    assert_eq!(ids(&frame_send_order(visible, display())), vec![w(1), w(2)]);

    assert!(frame_send_order(Vec::new(), display()).is_empty());
}

#[test]
fn frame_send_order_is_a_stable_partition() {
    let mut seed: u64 = 98;
    let mut next = move |n: u64| {
        seed = seed.wrapping_mul(6364136223846793005).wrapping_add(1442695040888963407);
        (seed >> 33) % n
    };
    let display = display();
    let is_park =
        |frame: &CGRect| is_off_screen(display, *frame);
    let mut mixed_runs = 0usize;
    for _ in 0..200 {
        let count = next(8) as usize;
        let frames: Vec<(WindowId, CGRect)> = (1..=count)
            .map(|i| {
                let frame = match next(3) {
                    0 => rect(1727.0, 1116.0, 859.0, 1081.0),
                    1 => rect(-1719.0 + next(100) as f64, 1116.0, 1720.0, 1081.0),
                    _ => rect(next(1400) as f64 - 200.0, 32.0, 859.0, 1081.0),
                };
                (WindowId::new(1, i as u32), frame)
            })
            .collect();
        let order = frame_send_order(frames.clone(), display);

        let mut sorted_in = ids(&frames);
        let mut sorted_out = ids(&order);
        sorted_in.sort();
        sorted_out.sort();
        assert_eq!(sorted_in, sorted_out, "seed 98: not a permutation");

        let first_park = order.iter().position(|(_, f)| is_park(f));
        let last_visible = order.iter().rposition(|(_, f)| !is_park(f));
        if let (Some(park), Some(visible)) = (first_park, last_visible) {
            assert!(visible < park, "seed 98: a park before an on-screen frame: {order:?}");
            mixed_runs += 1;
        }
        let given_visible: Vec<_> = frames.iter().filter(|(_, f)| !is_park(f)).collect();
        let sent_visible: Vec<_> = order.iter().filter(|(_, f)| !is_park(f)).collect();
        assert_eq!(given_visible, sent_visible, "seed 98: on-screen order changed");
        let given_parks: Vec<_> = frames.iter().filter(|(_, f)| is_park(f)).collect();
        let sent_parks: Vec<_> = order.iter().filter(|(_, f)| is_park(f)).collect();
        assert_eq!(given_parks, sent_parks, "seed 98: park order changed");
    }
    assert!(mixed_runs > 0, "generator sanity: no mixed run");
}
