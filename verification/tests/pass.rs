//! A layout pass sorted into moves and windows that stay.
use rini::geometry::{Point, Rect, Size};
use rini::ids::{WindowId, WindowServerId};
use rini::pass::{instant_requests, plan, Move, PassWindow, Request};

/// A point, in points.
#[derive(Clone, Copy, PartialEq, Debug)]
struct CGPoint {
    x: f64,
    y: f64,
}

impl CGPoint {
    fn new(x: f64, y: f64) -> Self {
        CGPoint { x, y }
    }
}

/// An extent, in points.
#[derive(Clone, Copy, PartialEq, Debug)]
struct CGSize {
    width: f64,
    height: f64,
}

impl CGSize {
    fn new(width: f64, height: f64) -> Self {
        CGSize { width, height }
    }
}

/// A frame, in points.
#[derive(Clone, Copy, PartialEq, Debug)]
struct CGRect {
    origin: CGPoint,
    size: CGSize,
}

impl CGRect {
    fn new(origin: CGPoint, size: CGSize) -> Self {
        CGRect { origin, size }
    }
}

/// Points, in thousandths.
fn pt(points: f64) -> i64 {
    (points * 1000.0).round() as i64
}

fn point(p: CGPoint) -> Point {
    Point::new(pt(p.x), pt(p.y))
}

fn extent(s: CGSize) -> Size {
    Size::new(pt(s.width), pt(s.height))
}

fn frame_of(r: CGRect) -> Rect {
    Rect::new(point(r.origin), extent(r.size))
}

fn rect(x: f64, y: f64, w: f64, h: f64) -> CGRect {
    CGRect::new(CGPoint::new(x, y), CGSize::new(w, h))
}

fn window(idx: u32, current: CGRect, target: CGRect) -> PassWindow {
    PassWindow {
        window: WindowId::new(1, idx),
        server_id: Some(WindowServerId::new(idx)),
        current: frame_of(current),
        target: frame_of(target),
        pending: None,
        in_active_workspace: true,
        floating: false,
        app_alive: true,
    }
}

#[test]
fn a_window_already_at_its_rounded_target_is_unmoved_and_still_drawn() {
    let at = rect(4.0, 32.0, 859.0, 1081.0);
    let plan = plan(&vec![window(1, at, rect(4.04, 31.96, 859.0, 1081.0))]);
    assert!(plan.moves.is_empty());
    assert!(!plan.any_frame_changed);
    assert_eq!(plan.unmoved.len(), 1);
    assert_eq!((plan.unmoved[0].from, plan.unmoved[0].to), (frame_of(at), frame_of(at)));
    assert!(plan.overlay_requests().is_empty());
}

#[test]
fn a_frame_already_in_flight_is_not_sent_again() {
    let from = rect(4.0, 32.0, 859.0, 1081.0);
    let to = rect(867.0, 32.0, 859.0, 1081.0);
    let mut w = window(1, from, to);
    w.pending = Some(frame_of(to));
    let plan = plan(&vec![w]);
    assert!(plan.moves.is_empty());
    assert!(!plan.any_frame_changed);
    assert_eq!(plan.unmoved.len(), 1, "still covered by the overlay");
}

#[test]
fn hidden_moves_warm_the_cache_but_do_not_fly() {
    let from = rect(4.0, 32.0, 859.0, 1081.0);
    let to = rect(1727.0, 1116.0, 859.0, 1081.0);
    let mut w = window(1, from, to);
    w.in_active_workspace = false;
    let plan = plan(&vec![w]);
    assert_eq!(plan.moves.len(), 1);
    assert!(plan.any_frame_changed);
    assert_eq!(plan.warm.len(), 1);
    assert!(plan.overlay_requests().is_empty());
    assert!(plan.unmoved.is_empty());
}

#[test]
fn a_dead_apps_window_counts_as_changed_but_is_not_moved() {
    let mut w = window(1, rect(0.0, 0.0, 100.0, 100.0), rect(50.0, 0.0, 100.0, 100.0));
    w.app_alive = false;
    let plan = plan(&vec![w]);
    assert!(plan.any_frame_changed);
    assert!(plan.moves.is_empty());
    assert!(plan.warm.is_empty());
}

#[test]
fn unmoved_windows_off_the_active_workspace_or_without_a_server_id_are_dropped() {
    let at = rect(0.0, 0.0, 100.0, 100.0);
    let mut off = window(1, at, at);
    off.in_active_workspace = false;
    let mut no_id = window(2, at, at);
    no_id.server_id = None;
    let plan = plan(&vec![off, no_id]);
    assert!(plan.unmoved.is_empty());
}

#[test]
fn overlay_requests_keep_layout_order_and_carry_floating() {
    let a = window(1, rect(0.0, 0.0, 100.0, 100.0), rect(10.0, 0.0, 100.0, 100.0));
    let mut b = window(2, rect(0.0, 0.0, 100.0, 100.0), rect(20.0, 0.0, 100.0, 100.0));
    b.floating = true;
    let plan = plan(&vec![a, b]);
    let overlay = plan.overlay_requests();
    assert_eq!(overlay.len(), 2);
    assert_eq!(overlay[0].window, WindowId::new(1, 1));
    assert!(overlay[1].floating);
}

#[test]
fn position_only_requests_split_moves_from_resizes() {
    let txid: u64 = 17;
    let w = |i| WindowId::new(1, i);
    let frames = vec![
        (w(1), frame_of(rect(0.0, 0.0, 10.0, 10.0)), true),
        (w(2), frame_of(rect(5.0, 0.0, 20.0, 10.0)), false),
    ];
    let requests = instant_requests(&frames, txid, true);
    assert!(matches!(&requests[0], Request::SetWorkspaceSwitchPositions(p, 17, true) if p == &vec![(w(1), Point::new(0, 0))]));
    assert!(matches!(&requests[1], Request::SetBatchWindowFrame(f, 17, true) if f.len() == 1 && f[0].0 == w(2)));
    let full = instant_requests(&frames, txid, false);
    assert_eq!(full.len(), 1);
    assert!(matches!(&full[0], Request::SetBatchWindowFrame(f, 17, true) if f.len() == 2));
}

#[test]
fn a_move_knows_whether_it_resizes() {
    let from = frame_of(rect(0.0, 0.0, 100.0, 100.0));
    let to = frame_of(rect(500.0, 0.0, 100.09, 100.0));
    let wider = frame_of(rect(500.0, 0.0, 100.1, 100.0));
    let m = Move {
        window: WindowId::new(1, 1),
        server_id: None,
        from,
        to,
        in_active_workspace: true,
        floating: false,
    };
    assert!(m.size_unchanged());
    assert!(!Move { to: wider, ..m }.size_unchanged());
}

#[test]
fn a_move_without_a_server_id_is_not_warmed_and_does_not_fly() {
    let mut w = window(1, rect(0.0, 0.0, 100.0, 100.0), rect(50.4, 0.0, 100.0, 100.0));
    w.server_id = None;
    let plan = plan(&vec![w]);
    assert_eq!(plan.moves.len(), 1);
    assert_eq!(plan.moves[0].to, frame_of(rect(50.0, 0.0, 100.0, 100.0)), "rounded");
    assert!(plan.warm.is_empty() && plan.overlay_requests().is_empty());
}

#[test]
fn a_position_only_pass_without_moves_sends_whole_frames_alone() {
    let frames = vec![(WindowId::new(1, 1), frame_of(rect(0.0, 0.0, 10.0, 10.0)), false)];
    let requests = instant_requests(&frames, 3, true);
    assert_eq!(requests.len(), 1);
    assert!(matches!(&requests[0], Request::SetBatchWindowFrame(f, 3, true) if f.len() == 1));
    assert!(instant_requests(&Vec::new(), 3, true).is_empty());
    assert_eq!(instant_requests(&Vec::new(), 3, false).len(), 1);
}
