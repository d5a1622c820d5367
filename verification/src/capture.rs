//! What becomes of a capture: which windows are worth one, and the picture made of the pixels it
//! gave.
use vstd::prelude::*;

use crate::fit::{Coverage, Extent};
use crate::geometry::Rect;
use crate::ids::WindowServerId;
use crate::snapshot::{SnapshotImage, SnapshotSource, WindowSnapshot};

verus! {

/// Pixels as a capture gave them: a bitmap by handle, and how many pixels it has across and down.
#[derive(Clone, Copy, PartialEq, Eq, Structural, Debug)]
pub struct Capture {
    pub image: u64,
    pub width: u32,
    pub height: u32,
}

/// The picture a capture makes.
pub open spec fn pictured(
    capture: Capture,
    window: (i64, i64),
    scale: u32,
    dressing: Option<u64>,
    taken: u64,
) -> WindowSnapshot {
    WindowSnapshot {
        image: SnapshotImage::Bitmap(capture.image),
        coverage: Coverage {
            covered: Extent {
                width: capture.width as i64,
                height: capture.height as i64,
                scale,
            },
            window,
        },
        source: SnapshotSource::SkyLight,
        dressing,
        taken,
    }
}

fn picture(
    capture: Capture,
    window: (i64, i64),
    scale: u32,
    dressing: Option<u64>,
    taken: u64,
) -> (snapshot: WindowSnapshot)
    ensures
        snapshot == pictured(capture, window, scale, dressing, taken),
{
    WindowSnapshot {
        image: SnapshotImage::Bitmap(capture.image),
        coverage: Coverage {
            covered: Extent {
                width: capture.width as i64,
                height: capture.height as i64,
                scale,
            },
            window,
        },
        source: SnapshotSource::SkyLight,
        dressing,
        taken,
    }
}

/// The picture of one window from the framebuffer. No pixels are normal while the display sleeps;
/// callers fall back to the cache.
pub fn capture_via_skylight(
    capture: Option<Capture>,
    window_size: (i64, i64),
    scale: u32,
    taken: u64,
) -> (snapshot: Option<WindowSnapshot>)
    ensures
        snapshot == match capture {
            Some(pixels) => Some(pictured(pixels, window_size, scale, None, taken)),
            None => None,
        },
{
    match capture {
        Some(pixels) => Some(picture(pixels, window_size, scale, None, taken)),
        None => None,
    }
}

/// The frame to capture a composited window at: only a window with an extent, on a display with a
/// scale, is captured at all.
pub fn framed(frame: Option<Rect>, scale: u32) -> (at: Option<Rect>)
    ensures
        at == match frame {
            Some(frame) => if frame.size.width > 0 && frame.size.height > 0 && scale > 0 {
                Some(frame)
            } else {
                None
            },
            None => None,
        },
{
    match frame {
        Some(frame) => if frame.size.width > 0 && frame.size.height > 0 && scale > 0 {
            Some(frame)
        } else {
            None
        },
        None => None,
    }
}

/// The picture of a composited window, captured at `frame`. The hairline is the one found around
/// it, where the capture reached that far.
pub fn capture_via_framed(
    frame: Rect,
    capture: Option<Capture>,
    dressing: Option<u64>,
    scale: u32,
    taken: u64,
) -> (snapshot: Option<WindowSnapshot>)
    ensures
        snapshot == match capture {
            Some(pixels) => Some(
                pictured(pixels, (frame.size.width, frame.size.height), scale, dressing, taken),
            ),
            None => None,
        },
{
    match capture {
        Some(pixels) => Some(
            picture(pixels, (frame.size.width, frame.size.height), scale, dressing, taken),
        ),
        None => None,
    }
}

/// The picture of several windows as one. There is none of no windows.
pub fn capture_composite_via_skylight(
    windows: &Vec<WindowServerId>,
    capture: Option<Capture>,
    covers: (i64, i64),
    scale: u32,
    taken: u64,
) -> (snapshot: Option<WindowSnapshot>)
    ensures
        snapshot == match capture {
            Some(pixels) => if windows@.len() == 0 {
                None
            } else {
                Some(pictured(pixels, covers, scale, None, taken))
            },
            None => None,
        },
{
    if windows.len() == 0 {
        return None;
    }
    match capture {
        Some(pixels) => Some(picture(pixels, covers, scale, None, taken)),
        None => None,
    }
}

/// The bitmap whose rendering can be compared with another's; a surface has none.
pub fn comparable(snapshot: &WindowSnapshot) -> (bitmap: Option<u64>)
    ensures
        bitmap == match snapshot.image {
            SnapshotImage::Bitmap(image) => Some(image),
            SnapshotImage::Surface(_) => None,
        },
{
    match snapshot.image {
        SnapshotImage::Bitmap(image) => Some(image),
        SnapshotImage::Surface(_) => None,
    }
}

/// A capture of all of a window's pixels, at a scale of whole pixels to the point, covers the window
/// exactly and is usable.
pub proof fn a_full_capture_covers_its_window(
    capture: Capture,
    points: (u32, u32),
    factor: u32,
    dressing: Option<u64>,
    taken: u64,
)
    requires
        1 <= factor,
        factor * 1000 <= u32::MAX,
        0 < points.0,
        0 < points.1,
        capture.width == points.0 * factor,
        capture.height == points.1 * factor,
    ensures
        ({
            let window = ((points.0 * 1000) as i64, (points.1 * 1000) as i64);
            let picture = pictured(capture, window, (factor * 1000) as u32, dressing, taken);
            picture.coverage.covered.is_exactly(window) && picture.coverage.usable()
        }),
{
    let scale = factor * 1000;
    assert((points.0 * factor) * 1_000_000 == (points.0 * 1000) * scale) by (nonlinear_arith)
        requires
            scale == factor * 1000,
    ;
    assert((points.1 * factor) * 1_000_000 == (points.1 * 1000) * scale) by (nonlinear_arith)
        requires
            scale == factor * 1000,
    ;
    assert((points.0 * 1000) * scale > 0 && (points.1 * 1000) * scale > 0) by (nonlinear_arith)
        requires
            points.0 > 0,
            points.1 > 0,
            scale > 0,
    ;
}

/// A picture carries the capture's bitmap and pixels, the display's scale, the window's size, the
/// hairline found and the time; none is made without pixels, nor of no windows.
pub proof fn a_picture_is_made_of_its_capture(
    capture: Option<Capture>,
    size: (i64, i64),
    frame: Rect,
    windows: Vec<WindowServerId>,
    dressing: Option<u64>,
    scale: u32,
    taken: u64,
    plain: Option<WindowSnapshot>,
    framed: Option<WindowSnapshot>,
    composite: Option<WindowSnapshot>,
)
    requires
        call_ensures(capture_via_skylight, (capture, size, scale, taken), plain),
        call_ensures(capture_via_framed, (frame, capture, dressing, scale, taken), framed),
        call_ensures(
            capture_composite_via_skylight,
            (&windows, capture, size, scale, taken),
            composite,
        ),
    ensures
        plain is Some <==> capture is Some,
        framed is Some <==> capture is Some,
        composite is Some <==> capture is Some && windows@.len() > 0,
        plain matches Some(p) ==> holds_capture(p, capture->0, scale, taken) && p.coverage.window
            == size && p.dressing is None,
        framed matches Some(p) ==> holds_capture(p, capture->0, scale, taken)
            && p.coverage.window.0 == frame.size.width && p.coverage.window.1 == frame.size.height
            && p.dressing == dressing,
        composite matches Some(p) ==> holds_capture(p, capture->0, scale, taken)
            && p.coverage.window == size && p.dressing is None,
{
}

/// The picture shows the capture's pixels, every one of them, at the display's scale.
pub open spec fn holds_capture(
    picture: WindowSnapshot,
    capture: Capture,
    scale: u32,
    taken: u64,
) -> bool {
    &&& picture.image == SnapshotImage::Bitmap(capture.image)
    &&& picture.coverage.covered.width == capture.width
    &&& picture.coverage.covered.height == capture.height
    &&& picture.coverage.covered.scale == scale
    &&& picture.source == SnapshotSource::SkyLight
    &&& picture.taken == taken
}

/// A window is captured where it stands or not at all: not without an extent, nor without a scale.
pub proof fn a_window_is_captured_where_it_stands(frame: Rect, scale: u32, at: Option<Rect>)
    requires
        call_ensures(framed, (Some(frame), scale), at),
    ensures
        at is Some <==> frame.size.width > 0 && frame.size.height > 0 && scale != 0,
        at matches Some(place) ==> place == frame,
{
}

/// Two pictures can be compared by their bitmaps alone.
pub proof fn only_bitmaps_are_compared(snapshot: WindowSnapshot, bitmap: Option<u64>)
    requires
        call_ensures(comparable, (&snapshot,), bitmap),
    ensures
        snapshot.image matches SnapshotImage::Bitmap(image) ==> bitmap == Some(image),
        snapshot.image is Surface ==> bitmap is None,
{
}

} // verus!
