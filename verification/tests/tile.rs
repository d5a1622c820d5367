//! How a tile draws its picture, and when its hairline may change.
use rini::geometry::{Point, Rect, Size};
use rini::tile::{dressing_rebuild_allowed, resize_in_flight, ContentMode, DressingAction};

/// Points, in thousandths.
fn pt(points: f64) -> i64 {
    (points * 1000.0).round() as i64
}

fn rect(x: f64, y: f64, w: f64, h: f64) -> Rect {
    Rect::new(Point::new(pt(x), pt(y)), Size::new(pt(w), pt(h)))
}

/// An extent in points.
#[derive(Clone, Copy, Debug)]
struct Extent {
    width: f64,
    height: f64,
}

fn extent(width: f64, height: f64) -> Extent {
    Extent { width, height }
}

fn size(extent: Extent) -> Size {
    Size::new(pt(extent.width), pt(extent.height))
}

fn points(covered: (f64, f64)) -> rini::fit::Extent {
    rini::fit::Extent::points((pt(covered.0), pt(covered.1)))
}

/// The frame at `t`, in halves of the way.
fn lerp_rect(from: Rect, to: Rect, t: f64) -> Rect {
    let r = rini::tile::lerp_rect(from, to, (t * 2.0) as u8, 2);
    Rect::new(
        Point::new(r.origin.x / 2, r.origin.y / 2),
        Size::new(r.size.width / 2, r.size.height / 2),
    )
}

fn content_mode(covered: (f64, f64), from: Extent, to: Extent) -> ContentMode {
    rini::tile::content_mode(points(covered), size(from), size(to))
}

fn placeholder_mode(covered: (f64, f64), to: Extent) -> ContentMode {
    rini::tile::placeholder_mode(points(covered), size(to))
}

fn outgrows(covered: (f64, f64), to: Extent) -> bool {
    rini::fit::outgrows(points(covered), size(to))
}

#[derive(Clone, Copy, Debug)]
struct Place {
    x: f64,
    y: f64,
}

#[derive(Clone, Copy, Debug)]
struct Part {
    origin: Place,
    size: Extent,
}

/// A piece with its frame in points and its contents as shares of the picture.
struct Piece {
    frame: Part,
    contents: Part,
}

fn crop_band(frame: Extent) -> f64 {
    rini::tile::crop_band(size(frame)) as f64 / 20_000.0
}

fn crop_pieces(picture: Extent, frame: Extent) -> Vec<Piece> {
    let part = |r: Rect, w: f64, h: f64| Part {
        origin: Place { x: r.origin.x as f64 / w, y: r.origin.y as f64 / h },
        size: extent(r.size.width as f64 / w, r.size.height as f64 / h),
    };
    rini::tile::crop_pieces(size(picture), size(frame))
        .iter()
        .map(|p| Piece {
            frame: part(p.frame, 20_000.0, 20_000.0),
            contents: part(p.contents, 20_000.0 * picture.width, 20_000.0 * picture.height),
        })
        .collect()
}

#[test]
fn a_mismatched_dressing_is_deferred_while_a_resize_is_in_flight() {
    let action = dressing_rebuild_allowed(true, false);
    assert_eq!(action, DressingAction::Defer, "hairline rebuilt mid-resize: {action:?}");
}

#[test]
fn dressing_rebuild_allowed_full_table() {
    assert_eq!(dressing_rebuild_allowed(false, true), DressingAction::SwapInPlace);
    assert_eq!(dressing_rebuild_allowed(true, true), DressingAction::SwapInPlace);
    assert_eq!(dressing_rebuild_allowed(false, false), DressingAction::Rebuild);
    assert_eq!(dressing_rebuild_allowed(true, false), DressingAction::Defer);
}

#[test]
fn a_resize_is_in_flight_until_its_end_instant() {
    let now: u64 = 5_000_000_000;
    assert!(resize_in_flight(Some(now + 100_000_000), now));
    assert!(!resize_in_flight(Some(now - 1_000_000), now));
    assert!(!resize_in_flight(Some(now), now), "the end instant itself is over");
    assert!(!resize_in_flight(None, now));
}

#[test]
fn a_resize_in_flight_never_rebuilds_the_hairline() {
    for worn_bits in 0u32..256 {
        for available_bits in 0u32..256 {
            let worn: Vec<usize> = (0..8).filter(|i| worn_bits & (1 << i) != 0).collect();
            let available: Vec<usize> =
                (0..8).filter(|i| available_bits & (1 << i) != 0).collect();
            let worn_matches = !worn.is_empty() && worn == available;
            for resize_in_flight in [false, true] {
                let action = dressing_rebuild_allowed(resize_in_flight, worn_matches);
                if resize_in_flight {
                    assert_ne!(
                        action,
                        DressingAction::Rebuild,
                        "worn {worn:?} available {available:?}"
                    );
                }
                if worn_matches {
                    assert_eq!(action, DressingAction::SwapInPlace);
                } else if !resize_in_flight {
                    assert_eq!(action, DressingAction::Rebuild);
                }
            }
        }
    }
}

#[test]
fn a_matching_piece_set_swaps_in_place_in_or_out_of_a_resize() {
    for bits in 1u32..256 {
        let worn: Vec<usize> = (0..8).filter(|i| bits & (1 << i) != 0).collect();
        let available = worn.clone();
        let worn_matches = !worn.is_empty() && worn == available;
        assert!(worn_matches, "pieces {worn:?}");
        for resize_in_flight in [false, true] {
            assert_eq!(
                dressing_rebuild_allowed(resize_in_flight, worn_matches),
                DressingAction::SwapInPlace,
                "pieces {worn:?} resize_in_flight={resize_in_flight}"
            );
        }
    }
}

#[test]
fn lerp_at_zero_is_the_start_frame() {
    let from = rect(10.0, 20.0, 100.0, 200.0);
    let to = rect(50.0, 60.0, 300.0, 400.0);
    let got = lerp_rect(from, to, 0.0);
    assert_eq!(got, from);
}

#[test]
fn lerp_at_one_is_the_end_frame() {
    let from = rect(10.0, 20.0, 100.0, 200.0);
    let to = rect(50.0, 60.0, 300.0, 400.0);
    assert_eq!(lerp_rect(from, to, 1.0), to);
}

#[test]
fn lerp_midpoint_is_halfway_on_every_axis() {
    let got = lerp_rect(rect(0.0, 0.0, 100.0, 100.0), rect(100.0, 200.0, 200.0, 300.0), 0.5);
    assert_eq!(got, rect(50.0, 100.0, 150.0, 200.0));
}

#[test]
fn lerp_handles_a_negative_origin() {
    let got = lerp_rect(rect(-1680.0, 32.0, 859.0, 1081.0), rect(0.0, 32.0, 859.0, 1081.0), 0.5);
    assert_eq!(got.origin.x, pt(-840.0));
    assert_eq!(got.origin.y, pt(32.0));
}

#[test]
fn a_matching_movement_stretches_and_everything_else_crops() {
    let col = extent(859.0, 1081.0);
    let picture = (859.0, 1081.0);
    assert_eq!(content_mode(picture, col, col), ContentMode::Stretch);
    assert_eq!(
        content_mode((918.0, 1081.0), extent(918.0, 1081.0), extent(917.0, 1081.0)),
        ContentMode::Stretch
    );
    assert_eq!(
        content_mode(picture, col, extent(1720.0, 1081.0)),
        ContentMode::Stretch
    );
    assert_eq!(content_mode(picture, col, extent(859.0, 540.0)), ContentMode::Crop);
    assert_eq!(content_mode((572.0, 1081.0), col, col), ContentMode::Stretch);
    assert_eq!(content_mode((918.0, 1081.0), col, col), ContentMode::Crop, "a wider one crops");
}

#[test]
fn a_placeholder_never_shows_backdrop() {
    let picture = (859.0, 1081.0);
    assert_eq!(placeholder_mode(picture, extent(1147.0, 1081.0)), ContentMode::Stretch);
    assert_eq!(placeholder_mode(picture, extent(859.0, 1300.0)), ContentMode::Stretch);
    assert_eq!(placeholder_mode(picture, extent(859.0, 1081.0)), ContentMode::Crop);
    assert_eq!(placeholder_mode(picture, extent(572.0, 1081.0)), ContentMode::Crop);
    for w in (1..=40).map(|i| i as f64 * 50.0) {
        for h in (1..=30).map(|i| i as f64 * 50.0) {
            let to = extent(w, h);
            match placeholder_mode(picture, to) {
                ContentMode::Stretch => {
                    assert!(outgrows(picture, to), "{to:?}")
                }
                ContentMode::Crop => {
                    assert!(!outgrows(picture, to), "{to:?}")
                }
            }
        }
    }
}

#[test]
fn crop_pieces_map_one_to_one_and_tile_the_frame() {
    let picture = extent(859.0, 1081.0);
    let frames = [
        extent(572.0, 1081.0),
        extent(859.0, 540.0),
        extent(20.0, 1081.0),
    ];
    for frame in frames {
        let mut area = 0.0;
        for piece in crop_pieces(picture, frame) {
            assert!(
                (piece.contents.size.width * picture.width - piece.frame.size.width).abs()
                    < 1e-9,
                "a piece stretches horizontally at {frame:?}"
            );
            assert!(
                (piece.contents.size.height * picture.height - piece.frame.size.height).abs()
                    < 1e-9,
                "a piece stretches vertically at {frame:?}"
            );
            area += piece.frame.size.width * piece.frame.size.height;
        }
        assert!(
            (area - frame.width * frame.height).abs() < 1e-6,
            "gap or overlap at {frame:?}"
        );
    }
}

#[test]
fn a_grow_past_the_picture_stretches_the_lead_and_keeps_the_band_intact() {
    let picture = extent(859.0, 1081.0);
    let frame = extent(1720.0, 1081.0);
    let pieces = crop_pieces(picture, frame);
    let body = &pieces[0];
    assert!((body.contents.origin.x).abs() < 1e-9);
    assert!((body.contents.size.width * picture.width - (859.0 - 40.0)).abs() < 1e-9);
    assert_eq!(body.frame.size.width, 1720.0 - 40.0, "stretched across the grown lead");
    let band = &pieces[1];
    assert!((band.contents.size.width * picture.width - 40.0).abs() < 1e-9);
    assert_eq!(band.frame.size.width, 40.0);
    let area: f64 =
        pieces.iter().map(|p| p.frame.size.width * p.frame.size.height).sum();
    assert!((area - frame.width * frame.height).abs() < 1e-6);
}

#[test]
fn crop_right_band_comes_from_the_pictures_right_edge() {
    let picture = extent(859.0, 1081.0);
    let pieces = crop_pieces(picture, extent(572.0, 1081.0));
    let band = &pieces[3];
    assert!((band.contents.origin.x * picture.width - (859.0 - 40.0)).abs() < 1e-9);
    assert_eq!(band.frame.origin.x, 572.0 - 40.0);
    assert_eq!(band.frame.size.width, 40.0);
}

#[test]
fn a_vertical_resize_pins_the_title_bar_and_anchors_content_to_the_bottom() {
    let picture = extent(859.0, 1081.0);
    let frame = extent(859.0, 540.0);
    let pieces = crop_pieces(picture, frame);
    let title = &pieces[0];
    assert_eq!(title.frame.origin.y, 0.0, "title band pinned to the top");
    assert!((title.contents.origin.y).abs() < 1e-9, "showing the picture's top");
    assert_eq!(title.frame.size.height, 40.0);
    let body = &pieces[2];
    assert_eq!(body.frame.origin.y, 40.0, "body starts at the seam below the title");
    let content_bottom =
        (body.contents.origin.y + body.contents.size.height) * picture.height;
    assert!((content_bottom - 1081.0).abs() < 1e-9, "contents reach the picture's bottom");
    assert_eq!(body.frame.size.height, 540.0 - 40.0);
}

#[test]
fn crop_band_fits_any_frame() {
    assert_eq!(crop_band(extent(859.0, 1081.0)), 40.0);
    assert!((crop_band(extent(60.0, 1081.0)) - 27.0).abs() < 1e-9);
    assert_eq!(crop_band(extent(0.0, 1081.0)), 0.0);
}

#[test]
fn a_shrinking_frame_keeps_nine_twentieths_of_its_shorter_side_for_the_band() {
    assert_eq!(rini::tile::crop_band(Size::new(pt(60.0), pt(1081.0))), 27 * 20_000);
    assert_eq!(rini::tile::crop_band(Size::new(pt(1081.0), pt(-5.0))), 0);
}

#[test]
fn a_tenth_of_the_way_is_exact() {
    let r = rini::tile::lerp_rect(rect(0.0, 0.0, 10.0, 10.0), rect(1.0, 3.0, 20.0, 10.0), 1, 10);
    assert_eq!(r, Rect::new(Point::new(1_000, 3_000), Size::new(110_000, 100_000)));
}

#[test]
fn a_hundredth_of_the_way_is_exact() {
    let r = rini::tile::lerp_rect(rect(0.0, 0.0, 10.0, 10.0), rect(1.0, 3.0, 20.0, 10.0), 37, 100);
    assert_eq!(r, Rect::new(Point::new(37_000, 111_000), Size::new(1_370_000, 1_000_000)));
}
