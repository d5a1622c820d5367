//! The cache of pictures, one per window.
use rini::capture::{
    capture_composite_via_skylight, capture_via_framed, capture_via_skylight, comparable, framed,
    Capture,
};
use rini::fit::{fits_frame, outgrows, spans_display, Coverage, Extent};
use rini::geometry::{Point, Rect, Size};
use rini::ids::{WindowId, WindowServerId};
use rini::snapshot::{
    dressing_after_insert, SnapshotCache, SnapshotImage, SnapshotSource, WindowSnapshot,
};

fn wid(idx: u32) -> WindowId {
    WindowId::new(1, idx)
}

fn coverage(covered: (f64, f64), window: (f64, f64)) -> Coverage {
    let pt = |points: f64| (points * 1000.0).round() as i64;
    Coverage {
        covered: Extent::points((pt(covered.0), pt(covered.1))),
        window: (pt(window.0), pt(window.1)),
    }
}

fn cache() -> SnapshotCache<Coverage> {
    SnapshotCache::new()
}

fn dressed(coverage: Coverage, dressing: Option<u64>) -> WindowSnapshot {
    WindowSnapshot {
        image: SnapshotImage::Bitmap(1),
        coverage,
        source: SnapshotSource::SkyLight,
        dressing,
        taken: 0,
    }
}

#[test]
fn a_refused_capture_still_delivers_its_dressing() {
    let mut cache: SnapshotCache<WindowSnapshot> = SnapshotCache::new();
    let good = coverage((859.0, 1081.0), (859.0, 1081.0));
    let sliver = coverage((40.0, 1081.0), (859.0, 1081.0));
    cache.insert(wid(1), dressed(good, Some(1)));
    cache.insert(wid(1), dressed(sliver, Some(2)));
    let held = cache.get(wid(1)).unwrap();
    assert_eq!(held.coverage.covered.width, 859_000, "the pixels were refused");
    assert_eq!(held.dressing, Some(2), "but the fresher ring was kept");
}

#[test]
fn an_accepted_capture_without_a_harvest_inherits_the_worn_dressing() {
    let mut cache: SnapshotCache<WindowSnapshot> = SnapshotCache::new();
    let good = coverage((859.0, 1081.0), (859.0, 1081.0));
    cache.insert(wid(1), dressed(good, Some(1)));
    cache.insert(wid(1), dressed(good, None));
    assert_eq!(cache.get(wid(1)).unwrap().dressing, Some(1));
}

#[test]
fn cache_applies_the_no_downgrade_rule() {
    let mut cache = cache();
    cache.insert(wid(1), coverage((859.0, 1081.0), (859.0, 1081.0)));
    cache.insert(wid(1), coverage((40.0, 1081.0), (859.0, 1081.0)));
    assert_eq!(cache.get(wid(1)).unwrap().covered.width, 859_000);
    assert!(cache.usable(wid(1)).is_some());
}

#[test]
fn cache_holds_a_sliver_but_reports_it_as_not_worth_drawing() {
    let mut cache = cache();
    cache.insert(wid(1), coverage((40.0, 1081.0), (859.0, 1081.0)));
    assert!(cache.get(wid(1)).is_some(), "held");
    assert!(cache.usable(wid(1)).is_none(), "but not drawable");
}

#[test]
fn forget_drops_one_window() {
    let mut cache = cache();
    cache.insert(wid(1), coverage((859.0, 1081.0), (859.0, 1081.0)));
    cache.forget(wid(1));
    assert!(cache.is_empty());
}

#[test]
fn retain_only_drops_windows_that_are_gone() {
    let mut cache = cache();
    cache.insert(wid(1), coverage((859.0, 1081.0), (859.0, 1081.0)));
    cache.insert(wid(2), coverage((859.0, 1081.0), (859.0, 1081.0)));
    cache.retain_only(&|w| w == wid(1));
    assert_eq!(cache.len(), 1);
    assert!(cache.get(wid(1)).is_some());
    assert!(cache.get(wid(2)).is_none());
}

#[test]
fn a_picture_can_be_changed_where_it_is_held() {
    let mut cache: SnapshotCache<WindowSnapshot> = SnapshotCache::new();
    let good = coverage((859.0, 1081.0), (859.0, 1081.0));
    cache.insert(wid(1), dressed(good, None));
    cache.get_mut(wid(1)).unwrap().dressing = Some(7);
    assert!(cache.get_mut(wid(2)).is_none());
    assert_eq!(cache.iter()[0].1.dressing, Some(7));
    assert_eq!(dressing_after_insert(Some(1), None), Some(1));
    assert!(cache.get(wid(1)).unwrap().fits(Size::new(859_000, 1_081_000)));
    assert!(!cache.get(wid(1)).unwrap().fits(Size::new(1_147_000, 1_081_000)));
}

#[test]
fn a_capture_covers_its_pixels_by_the_scale() {
    let capture = Some(Capture { image: 9, width: 1718, height: 2162 });
    let taken = capture_via_skylight(capture, (859_000, 1_081_000), 2_000, 5).unwrap();
    assert_eq!(taken.coverage.covered, Extent { width: 1718, height: 2162, scale: 2_000 });
    assert!(fits_frame(taken.coverage.covered, (859_000, 1_081_000)));
    assert!(!outgrows(taken.coverage.covered, Size::new(859_000, 1_081_000)));
    assert!(spans_display(taken.coverage.covered, (861_000, 1_079_000)));
    assert!(!spans_display(taken.coverage.covered, (861_001, 1_081_000)));
    assert!(taken.is_usable());
    assert_eq!((comparable(&taken), taken.taken), (Some(9), 5));
    let unscaled = capture_via_skylight(capture, (859_000, 1_081_000), 0, 5).unwrap();
    assert!(fits_frame(unscaled.coverage.covered, (1_718_000, 2_162_000)));
    assert!(!unscaled.fits(Size::new(859_000, 1_081_000)));
    assert!(unscaled.fits_like(&unscaled) && !unscaled.fits_like(&taken));
    assert!(capture_via_skylight(None, (1, 1), 2_000, 5).is_none());
    let surface = WindowSnapshot { image: SnapshotImage::Surface(9), ..taken };
    assert_eq!(comparable(&surface), None);
}

#[test]
fn only_a_window_with_an_extent_is_captured_framed() {
    let frame = Rect::new(Point::new(0, 0), Size::new(1_000, 1_000));
    let flat = Rect::new(Point::new(0, 0), Size::new(1_000, 0));
    assert_eq!(framed(Some(frame), 2_000), Some(frame));
    assert_eq!(framed(Some(frame), 0), None);
    assert_eq!(framed(Some(flat), 2_000), None);
    assert_eq!(framed(None, 2_000), None);
    let capture = Some(Capture { image: 3, width: 2, height: 2 });
    let taken = capture_via_framed(frame, capture, Some(4), 2_000, 1).unwrap();
    assert_eq!((taken.dressing, taken.coverage.window), (Some(4), (1_000, 1_000)));
    assert!(capture_via_framed(frame, None, None, 2_000, 1).is_none());
}

#[test]
fn nothing_composites_to_nothing() {
    let capture = Some(Capture { image: 3, width: 2, height: 2 });
    assert!(capture_composite_via_skylight(&Vec::new(), capture, (1, 1), 2_000, 1).is_none());
    let one = vec![WindowServerId::new(1)];
    assert!(capture_composite_via_skylight(&one, capture, (1, 1), 2_000, 1).is_some());
    assert!(capture_composite_via_skylight(&one, None, (1, 1), 2_000, 1).is_none());
}

#[test]
fn a_scale_that_does_not_divide_loses_nothing() {
    // A third of a point reaches 995 thousandths of 0.335 points; 0.333 points would not.
    let pixel = Some(Capture { image: 1, width: 1, height: 1 });
    assert!(capture_via_skylight(pixel, (335, 335), 3_000, 0).unwrap().is_usable());
    assert!(!capture_via_skylight(pixel, (336, 335), 3_000, 0).unwrap().is_usable());
}
