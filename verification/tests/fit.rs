//! Which pictures are worth keeping, and for which frames.
use rini::fit::{is_a_resize, picture_is_stale, should_replace, Coverage, Extent};
use rini::geometry::Size;

/// Points, in thousandths.
fn pt(points: f64) -> i64 {
    (points * 1000.0).round() as i64
}

fn pair(extent: (f64, f64)) -> (i64, i64) {
    (pt(extent.0), pt(extent.1))
}

fn size(width: f64, height: f64) -> Size {
    Size::new(pt(width), pt(height))
}

fn coverage(covered: (f64, f64), window: (f64, f64)) -> Coverage {
    Coverage { covered: Extent::points(pair(covered)), window: pair(window) }
}

fn spans_display(covered: (f64, f64), display: (f64, f64)) -> bool {
    rini::fit::spans_display(Extent::points(pair(covered)), pair(display))
}

fn fits_frame(covered: (f64, f64), frame: (f64, f64)) -> bool {
    rini::fit::fits_frame(Extent::points(pair(covered)), pair(frame))
}

fn outgrows(covered: (f64, f64), to: Size) -> bool {
    rini::fit::outgrows(Extent::points(pair(covered)), to)
}

fn needs_capture(cached: Option<Coverage>, size: (f64, f64)) -> bool {
    rini::fit::needs_capture(cached, pair(size))
}

fn is_backdrop_worth_drawing(
    have_one_already: bool,
    has_wallpaper: bool,
    covered: (f64, f64),
    display: (f64, f64),
) -> bool {
    rini::fit::is_backdrop_worth_drawing(have_one_already, has_wallpaper, Extent::points(pair(covered)), pair(display))
}

#[test]
fn full_size_capture_is_usable() {
    assert!(coverage((859.0, 1081.0), (859.0, 1081.0)).is_usable());
}

#[test]
fn capture_a_couple_of_points_short_is_still_usable() {
    assert!(coverage((857.0, 1079.0), (859.0, 1081.0)).is_usable());
}

#[test]
fn a_picture_of_another_display_does_not_span_this_one() {
    assert!(!spans_display((3008.0, 1692.0), (1728.0, 1117.0)));
    assert!(!spans_display((1728.0, 1117.0), (3008.0, 1692.0)));
}

#[test]
fn a_picture_of_this_display_spans_it_including_a_point_of_rounding() {
    assert!(spans_display((1728.0, 1117.0), (1728.0, 1117.0)));
    assert!(spans_display((1729.0, 1116.0), (1728.0, 1117.0)));
    assert!(!spans_display((1725.0, 1117.0), (1728.0, 1117.0)), "3pt short is not the display");
}

#[test]
fn a_point_of_rounding_is_not_a_resize() {
    assert!(!is_a_resize(size(918.0, 1081.0), size(917.0, 1081.0)));
    assert!(!is_a_resize(size(1720.0, 1081.0), size(1719.0, 1081.0)));
    assert!(!is_a_resize(size(859.0, 1081.0), size(859.0, 1081.0)));
}

#[test]
fn a_column_changing_width_is_a_resize() {
    assert!(is_a_resize(size(1440.0, 1081.0), size(859.0, 1081.0)));
    assert!(is_a_resize(size(859.0, 1081.0), size(1720.0, 1081.0)));
    assert!(is_a_resize(size(859.0, 1081.0), size(859.0, 540.0)));
}

#[test]
fn the_tolerance_scales_with_the_window() {
    assert!(!is_a_resize(size(400.0, 400.0), size(401.0, 400.0)));
    assert!(is_a_resize(size(40.0, 400.0), size(41.0, 400.0)));
}

#[test]
fn a_picture_goes_stale_by_age_alone() {
    assert!(!picture_is_stale(500_000_000));
    assert!(picture_is_stale(3_000_000_000));
}

#[test]
fn a_grow_outgrows_its_picture_and_a_shrink_does_not() {
    let picture = (859.0, 1081.0);
    assert!(outgrows(picture, size(1147.0, 1081.0)), "wider");
    assert!(outgrows(picture, size(859.0, 1300.0)), "taller");
    assert!(!outgrows(picture, size(859.0, 1081.0)), "same");
    assert!(!outgrows(picture, size(572.0, 1081.0)), "narrower");
    assert!(!outgrows(picture, size(861.0, 1081.0)));
}

#[test]
fn a_window_with_no_picture_needs_one() {
    assert!(needs_capture(None, (859.0, 1081.0)));
}

#[test]
fn a_resized_window_needs_a_new_picture_even_though_the_old_one_is_usable() {
    let old = coverage((859.0, 1081.0), (859.0, 1081.0));
    assert!(old.is_usable(), "the old picture is perfectly good for the old size");
    assert!(needs_capture(Some(old), (1147.0, 1081.0)));
}

#[test]
fn a_picture_that_still_fits_needs_nothing() {
    let current = coverage((1147.0, 1081.0), (1147.0, 1081.0));
    assert!(!needs_capture(Some(current), (1147.0, 1081.0)));
    assert!(!needs_capture(Some(current), (1146.0, 1081.0)));
}

#[test]
fn scrolled_off_strip_sliver_is_rejected() {
    assert!(!coverage((40.0, 1081.0), (859.0, 1081.0)).is_usable());
}

#[test]
fn hidden_workspace_capture_is_rejected() {
    assert!(!coverage((1.0, 28.0), (1147.0, 1081.0)).is_usable());
}

#[test]
fn a_capture_clipped_only_vertically_is_rejected() {
    assert!(!coverage((859.0, 300.0), (859.0, 1081.0)).is_usable());
}

#[test]
fn zero_sized_window_is_rejected_rather_than_dividing_by_zero() {
    assert!(!coverage((0.0, 0.0), (0.0, 0.0)).is_usable());
}

#[test]
fn a_usable_capture_is_never_downgraded_to_a_sliver() {
    let good = coverage((859.0, 1081.0), (859.0, 1081.0));
    let sliver = coverage((40.0, 1081.0), (859.0, 1081.0));
    assert!(!should_replace(Some(good), sliver));
}

#[test]
fn a_sliver_is_accepted_when_nothing_is_cached() {
    let sliver = coverage((40.0, 1081.0), (859.0, 1081.0));
    assert!(should_replace(None, sliver));
}

#[test]
fn a_sliver_is_upgraded_by_a_full_capture() {
    let sliver = coverage((40.0, 1081.0), (859.0, 1081.0));
    let good = coverage((859.0, 1081.0), (859.0, 1081.0));
    assert!(should_replace(Some(sliver), good));
}

#[test]
fn a_fresh_full_capture_replaces_an_older_one() {
    let good = coverage((859.0, 1081.0), (859.0, 1081.0));
    assert!(should_replace(Some(good), good));
}

#[test]
fn a_sliver_replaces_another_sliver() {
    let a = coverage((40.0, 1081.0), (859.0, 1081.0));
    let b = coverage((2.0, 1081.0), (859.0, 1081.0));
    assert!(should_replace(Some(a), b));
}

#[test]
fn a_desktop_capture_missing_its_wallpaper_is_rejected() {
    assert!(!is_backdrop_worth_drawing(true, false, (1728.0, 1117.0), (1728.0, 1117.0)));
}

#[test]
fn a_desktop_capture_with_its_wallpaper_is_drawn() {
    assert!(is_backdrop_worth_drawing(true, true, (1728.0, 1117.0), (1728.0, 1117.0)));
}

#[test]
fn a_wallpaperless_capture_is_still_drawn_when_there_is_nothing_to_keep() {
    assert!(is_backdrop_worth_drawing(false, false, (1728.0, 1117.0), (1728.0, 1117.0)));
}

#[test]
fn a_desktop_capture_shorter_than_the_display_is_rejected() {
    assert!(!is_backdrop_worth_drawing(true, true, (1728.0, 1085.0), (1728.0, 1117.0)));
    assert!(!is_backdrop_worth_drawing(false, true, (1728.0, 1085.0), (1728.0, 1117.0)));
}

#[test]
fn a_desktop_capture_spanning_more_than_the_display_is_rejected() {
    assert!(!is_backdrop_worth_drawing(true, true, (3456.0, 1117.0), (1728.0, 1117.0)));
}

#[test]
fn a_desktop_capture_a_rounding_error_short_is_still_drawn() {
    assert!(is_backdrop_worth_drawing(true, true, (1727.5, 1116.5), (1728.0, 1117.0)));
}

#[test]
fn a_picture_of_the_wrong_shape_does_not_fit_its_frame() {
    assert!(!fits_frame((1720.0, 1081.0), (859.0, 1081.0)));
    assert!(!fits_frame((1720.0, 1081.0), (1499.0, 1656.0)));
}

#[test]
fn a_picture_of_the_right_shape_fits() {
    assert!(fits_frame((859.0, 1081.0), (859.0, 1081.0)));
}

#[test]
fn a_picture_a_rounding_error_off_still_fits() {
    assert!(fits_frame((858.5, 1080.5), (859.0, 1081.0)));
}

#[test]
fn a_picture_off_by_a_few_points_does_not_fit() {
    assert!(!fits_frame((820.0, 1081.0), (859.0, 1081.0)));
}

#[test]
fn a_zero_sized_frame_never_fits_rather_than_dividing_by_zero() {
    assert!(!fits_frame((859.0, 1081.0), (0.0, 0.0)));
}

#[test]
fn a_usable_capture_can_still_not_fit_the_frame_it_is_drawn_into() {
    let full_width = coverage((1720.0, 1081.0), (1720.0, 1081.0));
    assert!(full_width.is_usable(), "it covers the window it was taken from");
    assert!(!rini::fit::fits_frame(full_width.covered, pair((859.0, 1081.0))), "but not the frame it goes into");
}

#[test]
fn a_picture_is_stale_only_past_two_seconds() {
    assert!(!picture_is_stale(2_000_000_000));
    assert!(picture_is_stale(2_000_000_001));
}

#[test]
fn the_stretch_limits_belong_to_what_fits() {
    assert!(fits_frame((995.0, 1005.0), (1000.0, 1000.0)));
    assert!(!fits_frame((994.999, 1000.0), (1000.0, 1000.0)));
    assert!(!fits_frame((1000.0, 1005.001), (1000.0, 1000.0)));
}

#[test]
fn the_usable_limit_belongs_to_what_is_usable() {
    assert!(coverage((995.0, 995.0), (1000.0, 1000.0)).is_usable());
    assert!(!coverage((994.999, 1000.0), (1000.0, 1000.0)).is_usable());
}
