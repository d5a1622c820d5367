//! Windows as the window server lists them: the desktop, the bar, and the overlay of Mission Control.
use vstd::prelude::*;

use crate::geometry::{greater, lesser, shared_span, visible_height, visible_width, Point, Rect, Size, LIMIT};
use crate::ids::WindowServerId;
use crate::text::{contains, occurs_at, same_text};

verus! {

/// One window of the listing. What the window server left out is `None`.
#[derive(Debug)]
pub struct ListedWindow {
    pub layer: Option<i64>,
    pub bounds: Option<Rect>,
    pub number: Option<i64>,
    pub owner: Option<String>,
    pub name: Option<String>,
}

/// Anything at or below this level is the desktop behind every app window.
pub const DESKTOP_CEILING: i64 = -2147483600;

/// The level of the Dock's overlay while Mission Control is up.
pub const MISSION_CONTROL_DOCK_LAYER: i64 = 18;

/// Whether a level belongs to the desktop. The wallpaper's, which the Dock owns, does.
pub fn is_desktop_layer(layer: i64) -> (desktop: bool)
    ensures
        desktop == (layer <= -2147483600),
{
    layer <= DESKTOP_CEILING
}

/// Between the desktop backdrop and normal windows: where a status bar lives. The bar is captured on
/// its own, so it must be out of the desktop picture.
pub fn is_bar_layer(layer: i64) -> (bar: bool)
    ensures
        bar == (-2147483600 < layer < 0),
{
    !is_desktop_layer(layer) && layer < 0
}

/// Some of the window shows on the display.
pub open spec fn overlaps(display: Rect, frame: Rect) -> bool {
    visible_width(display, frame) > 0 && visible_height(display, frame) > 0
}

fn overlap(display: Rect, frame: Rect) -> (overlap: bool)
    ensures
        overlap == overlaps(display, frame),
{
    let width: i128 = shared_span(
        frame.origin.x as i128,
        frame.max_x(),
        display.origin.x as i128,
        display.max_x(),
    );
    let height: i128 = shared_span(
        frame.origin.y as i128,
        frame.max_y(),
        display.origin.y as i128,
        display.max_y(),
    );
    width > 0 && height > 0
}

/// A text names the wallpaper: owner "Wallpaper", or "Wallpaper-" and an identifier under the Dock.
pub open spec fn names_wallpaper(text: Option<String>) -> bool {
    text matches Some(value) && exists|at: int| occurs_at(value@, "Wallpaper"@, at)
}

fn mentions_wallpaper(text: &Option<String>) -> (mentioned: bool)
    ensures
        mentioned == names_wallpaper(*text),
{
    match text {
        Some(value) => contains(value.as_str(), "Wallpaper"),
        None => false,
    }
}

/// A listed window belongs to a class of levels, shows on the display, and has a number.
pub open spec fn counts(window: ListedWindow, display: Rect, desktop: bool) -> bool {
    &&& window.layer matches Some(layer) && (if desktop {
        layer <= -2147483600
    } else {
        -2147483600 < layer < 0
    })
    &&& window.bounds matches Some(bounds) && overlaps(display, bounds)
    &&& window.number is Some
}

fn is_counted(window: &ListedWindow, display: Rect, desktop: bool) -> (counted: bool)
    ensures
        counted == counts(*window, display, desktop),
{
    let layer = match window.layer {
        Some(layer) => if desktop {
            is_desktop_layer(layer)
        } else {
            is_bar_layer(layer)
        },
        None => false,
    };
    let bounds = match window.bounds {
        Some(bounds) => overlap(display, bounds),
        None => false,
    };
    layer && bounds && window.number.is_some()
}

/// The windows that count, in the order listed.
pub open spec fn counted(listing: Seq<ListedWindow>, display: Rect, desktop: bool) -> Seq<
    ListedWindow,
>
    decreases listing.len(),
{
    if listing.len() == 0 {
        Seq::empty()
    } else {
        let before = counted(listing.drop_last(), display, desktop);
        if counts(listing.last(), display, desktop) {
            before.push(listing.last())
        } else {
            before
        }
    }
}

/// The identifiers of listed windows: the low half of their numbers.
pub open spec fn numbered(windows: Seq<ListedWindow>) -> Seq<WindowServerId> {
    windows.map_values(|w: ListedWindow| WindowServerId(w.number->0 as u32))
}

/// The windows making up the desktop backdrop, and whether the wallpaper is among them.
#[derive(Debug)]
pub struct DesktopBackdrop {
    pub windows: Vec<WindowServerId>,
    /// The system recreates the wallpaper window; a listing without it composites to black.
    pub has_wallpaper: bool,
}

/// One of the windows is the wallpaper.
pub open spec fn wallpaper_among(windows: Seq<ListedWindow>) -> bool {
    exists|i: int|
        0 <= i < windows.len() && (names_wallpaper((#[trigger] windows[i]).owner)
            || names_wallpaper(windows[i].name))
}

/// The desktop backdrop: everything at or below the desktop level on `display`.
pub fn desktop_backdrop_windows(listing: &Vec<ListedWindow>, display: Rect) -> (backdrop:
    DesktopBackdrop)
    ensures
        backdrop.windows@ == numbered(counted(listing@, display, true)),
        backdrop.has_wallpaper == wallpaper_among(counted(listing@, display, true)),
{
    let mut windows: Vec<WindowServerId> = Vec::new();
    let mut has_wallpaper = false;
    let mut i: usize = 0;
    while i < listing.len()
        invariant
            i <= listing@.len(),
            windows@ == numbered(counted(listing@.take(i as int), display, true)),
            has_wallpaper == wallpaper_among(counted(listing@.take(i as int), display, true)),
        decreases listing@.len() - i,
    {
        let window = &listing[i];
        let ghost before = counted(listing@.take(i as int), display, true);
        assert(listing@.take(i + 1).drop_last() == listing@.take(i as int));
        if is_counted(window, display, true) {
            if let Some(number) = window.number {
                let named = mentions_wallpaper(&window.owner) || mentions_wallpaper(&window.name);
                proof {
                    let after = before.push(*window);
                    assert(numbered(after) =~= numbered(before).push(WindowServerId(number as u32)));
                    if named {
                        assert(after[before.len() as int] == *window);
                    }
                    if wallpaper_among(before) {
                        let k = choose|k: int|
                            0 <= k < before.len() && (names_wallpaper((#[trigger] before[k]).owner)
                                || names_wallpaper(before[k].name));
                        assert(after[k] == before[k]);
                    }
                    if wallpaper_among(after) {
                        let k = choose|k: int|
                            0 <= k < after.len() && (names_wallpaper((#[trigger] after[k]).owner)
                                || names_wallpaper(after[k].name));
                        assert(k < before.len() ==> after[k] == before[k]);
                    }
                }
                if named {
                    has_wallpaper = true;
                }
                windows.push(WindowServerId::new(number as u32));
            }
        }
        i += 1;
    }
    assert(listing@.take(listing@.len() as int) == listing@);
    DesktopBackdrop { windows, has_wallpaper }
}

/// The bar's windows and the frame they occupy together.
#[derive(Debug)]
pub struct BarStrip {
    pub windows: Vec<WindowServerId>,
    /// Union of the windows' bounds, or `None` without a bar. A composite capture covers only this
    /// union, so it must be drawn at the union's origin.
    pub bounds: Option<Rect>,
}

/// The smallest frame that covers both.
pub open spec fn united(a: Rect, b: Rect) -> Rect {
    let left = lesser(a.left(), b.left());
    let top = lesser(a.top(), b.top());
    Rect {
        origin: Point { x: left as i64, y: top as i64 },
        size: Size {
            width: (greater(a.right(), b.right()) - left) as i64,
            height: (greater(a.bottom(), b.bottom()) - top) as i64,
        },
    }
}

/// The smallest frame that covers all the windows; none without a window.
pub open spec fn united_all(windows: Seq<ListedWindow>) -> Option<Rect>
    decreases windows.len(),
{
    if windows.len() == 0 {
        None
    } else {
        match united_all(windows.drop_last()) {
            Some(before) => Some(united(before, windows.last().bounds->0)),
            None => windows.last().bounds,
        }
    }
}

/// A frame whose edges lie where frames inside the limit can have theirs.
pub open spec fn edges_inside(frame: Rect) -> bool {
    &&& -LIMIT <= frame.left() <= LIMIT
    &&& -LIMIT <= frame.top() <= LIMIT
    &&& -2 * LIMIT <= frame.right() <= 2 * LIMIT
    &&& -2 * LIMIT <= frame.bottom() <= 2 * LIMIT
}

/// The smallest frame that covers both.
fn union_rect(a: Rect, b: Rect) -> (union: Rect)
    requires
        edges_inside(a),
        edges_inside(b),
    ensures
        union == united(a, b),
        edges_inside(union),
{
    let x0: i64 = if a.origin.x <= b.origin.x {
        a.origin.x
    } else {
        b.origin.x
    };
    let y0: i64 = if a.origin.y <= b.origin.y {
        a.origin.y
    } else {
        b.origin.y
    };
    let (ax, ay) = (a.max_x(), a.max_y());
    let (bx, by) = (b.max_x(), b.max_y());
    let x1: i128 = if ax >= bx {
        ax
    } else {
        bx
    };
    let y1: i128 = if ay >= by {
        ay
    } else {
        by
    };
    Rect {
        origin: Point { x: x0, y: y0 },
        size: Size { width: (x1 - x0 as i128) as i64, height: (y1 - y0 as i128) as i64 },
    }
}

/// The bar sitting in the menu bar strip, with the frame it occupies.
pub fn bar_strip(listing: &Vec<ListedWindow>, display: Rect) -> (strip: BarStrip)
    requires
        forall|i: int|
            0 <= i < listing@.len() ==> ((#[trigger] listing@[i]).bounds matches Some(bounds)
                ==> bounds.inside(1)),
    ensures
        strip.windows@ == numbered(counted(listing@, display, false)),
        strip.bounds == united_all(counted(listing@, display, false)),
{
    let mut windows: Vec<WindowServerId> = Vec::new();
    let mut bounds: Option<Rect> = None;
    let mut i: usize = 0;
    while i < listing.len()
        invariant
            i <= listing@.len(),
            windows@ == numbered(counted(listing@.take(i as int), display, false)),
            bounds == united_all(counted(listing@.take(i as int), display, false)),
            bounds matches Some(union) ==> edges_inside(union),
            forall|i: int|
                0 <= i < listing@.len() ==> ((#[trigger] listing@[i]).bounds matches Some(bounds)
                    ==> bounds.inside(1)),
        decreases listing@.len() - i,
    {
        let window = &listing[i];
        let ghost before = counted(listing@.take(i as int), display, false);
        assert(listing@.take(i + 1).drop_last() == listing@.take(i as int));
        if is_counted(window, display, false) {
            if let (Some(number), Some(frame)) = (window.number, window.bounds) {
                proof {
                    let after = before.push(*window);
                    assert(numbered(after) =~= numbered(before).push(WindowServerId(number as u32)));
                    assert(after.drop_last() =~= before);
                }
                bounds = Some(
                    match bounds {
                        Some(union) => union_rect(union, frame),
                        None => frame,
                    },
                );
                windows.push(WindowServerId::new(number as u32));
            }
        }
        i += 1;
    }
    assert(listing@.take(listing@.len() as int) == listing@);
    BarStrip { windows, bounds }
}

/// No level is both desktop and bar: a window counted twice would be composited twice.
pub proof fn no_window_is_both_desktop_and_bar(window: ListedWindow, display: Rect)
    ensures
        !(counts(window, display, true) && counts(window, display, false)),
{
}

/// The bar's frame covers each of its windows.
pub proof fn the_bar_covers_its_windows(windows: Seq<ListedWindow>, i: int)
    requires
        0 <= i < windows.len(),
        forall|j: int|
            0 <= j < windows.len() ==> ((#[trigger] windows[j]).bounds matches Some(bounds)
                && bounds.inside(1)),
    ensures
        united_all(windows) matches Some(union) && edges_inside(union) && union.left()
            <= windows[i].bounds->0.left() && union.top() <= windows[i].bounds->0.top()
            && windows[i].bounds->0.right() <= union.right() && windows[i].bounds->0.bottom()
            <= union.bottom(),
    decreases windows.len(),
{
    let rest = windows.drop_last();
    assert(windows[windows.len() - 1].bounds is Some);
    if rest.len() > 0 {
        assert forall|j: int| 0 <= j < rest.len() implies ((#[trigger] rest[j]).bounds matches Some(
            bounds,
        ) && bounds.inside(1)) by {
            assert(rest[j] == windows[j]);
        }
        if i < rest.len() {
            the_bar_covers_its_windows(rest, i);
            assert(rest[i] == windows[i]);
        } else {
            the_bar_covers_its_windows(rest, 0);
        }
    }
}

/// The window is Mission Control's: the Dock's, without a name, on its level.
pub open spec fn is_mission_control(window: ListedWindow) -> bool {
    &&& window.name is None
    &&& window.owner matches Some(owner) && owner@ == "Dock"@
    &&& window.layer == Some(18i64)
}

/// One of the windows is Mission Control's.
pub open spec fn overlay_among(listing: Seq<ListedWindow>) -> bool {
    exists|i: int| 0 <= i < listing.len() && is_mission_control(#[trigger] listing[i])
}

/// Whether Mission Control's Dock-owned overlay is still visible in the listing of everything on
/// screen.
pub fn mission_control_dock_overlay_visible(listing: &Vec<ListedWindow>) -> (visible: bool)
    ensures
        visible == overlay_among(listing@),
        visible == exists|i: int|
            0 <= i < listing@.len() && is_mission_control(#[trigger] listing@[i]),
{
    let mut i: usize = 0;
    while i < listing.len()
        invariant
            i <= listing@.len(),
            forall|j: int| 0 <= j < i ==> !is_mission_control(#[trigger] listing@[j]),
        decreases listing@.len() - i,
    {
        let window = &listing[i];
        let docked = match &window.owner {
            Some(owner) => same_text(owner.as_str(), "Dock"),
            None => false,
        };
        let layered = match window.layer {
            Some(layer) => layer == MISSION_CONTROL_DOCK_LAYER,
            None => false,
        };
        if window.name.is_none() && docked && layered {
            assert(is_mission_control(listing@[i as int]));
            return true;
        }
        i += 1;
    }
    false
}

/// What the window server says of one window.
#[derive(Clone, Copy, Debug, PartialEq, Eq, Structural)]
pub struct WindowInfo {
    pub pid: i32,
    pub layer: i32,
    pub frame: Rect,
}

/// A window that holds the desktop's role on a display: its number as listed, and what the window
/// server says of it.
#[derive(Clone, Copy, Debug, PartialEq, Eq, Structural)]
pub struct RoleWindow {
    pub number: i64,
    pub info: Option<WindowInfo>,
}

/// A role window is the desktop of the screen at `screen`: its number is a window's, it lies below
/// the normal level, and its middle is on the screen.
pub open spec fn is_desktop_of(window: RoleWindow, screen: Rect) -> bool {
    &&& 0 <= window.number <= u32::MAX
    &&& window.info matches Some(info) && info.layer < 0 && 2 * screen.left() <= info.frame.left()
        + info.frame.right() <= 2 * screen.right() && 2 * screen.top() <= info.frame.top()
        + info.frame.bottom() <= 2 * screen.bottom()
}

fn is_desktop_on(window: &RoleWindow, screen: Rect) -> (desktop: bool)
    ensures
        desktop == is_desktop_of(*window, screen),
{
    if window.number < 0 || window.number > u32::MAX as i64 {
        return false;
    }
    match window.info {
        Some(info) => {
            let across: i128 = info.frame.origin.x as i128 + info.frame.max_x();
            let down: i128 = info.frame.origin.y as i128 + info.frame.max_y();
            info.layer < 0 && 2 * screen.origin.x as i128 <= across && across <= 2 * screen.max_x()
                && 2 * screen.origin.y as i128 <= down && down <= 2 * screen.max_y()
        },
        None => false,
    }
}

/// Gives the keyboard to the desktop window of a screen: the first of the screen's role windows that
/// is its desktop and takes it. Nothing is tried for a screen without an identity or a listing.
pub fn focus_desktop_window<F: Fn(i32, WindowServerId) -> bool>(
    screen: Rect,
    display_uuid: Option<&str>,
    role_windows: Option<&Vec<RoleWindow>>,
    make_key_window: F,
) -> (focused: bool)
    requires
        forall|pid: i32, id: WindowServerId| call_requires(make_key_window, (pid, id)),
    ensures
        display_uuid is None || role_windows is None ==> !focused,
        focused ==> exists|i: int|
            0 <= i < role_windows->0@.len() && is_desktop_of(
                #[trigger] role_windows->0@[i],
                screen,
            ) && call_ensures(
                make_key_window,
                (role_windows->0@[i].info->0.pid, WindowServerId(role_windows->0@[i].number as u32)),
                true,
            ) && forall|j: int|
                0 <= j < i && is_desktop_of(#[trigger] role_windows->0@[j], screen) ==> call_ensures(
                    make_key_window,
                    (
                        role_windows->0@[j].info->0.pid,
                        WindowServerId(role_windows->0@[j].number as u32),
                    ),
                    false,
                ),
        display_uuid is Some && role_windows is Some && !focused ==> forall|j: int|
            0 <= j < role_windows->0@.len() && is_desktop_of(
                #[trigger] role_windows->0@[j],
                screen,
            ) ==> call_ensures(
                make_key_window,
                (role_windows->0@[j].info->0.pid, WindowServerId(role_windows->0@[j].number as u32)),
                false,
            ),
{
    if display_uuid.is_none() {
        return false;
    }
    let windows = match role_windows {
        Some(windows) => windows,
        None => {
            return false;
        },
    };
    let mut i: usize = 0;
    while i < windows.len()
        invariant
            i <= windows@.len(),
            display_uuid is Some,
            role_windows == Some(windows),
            forall|pid: i32, id: WindowServerId| call_requires(make_key_window, (pid, id)),
            forall|j: int|
                0 <= j < i && is_desktop_of(#[trigger] windows@[j], screen) ==> call_ensures(
                    make_key_window,
                    (windows@[j].info->0.pid, WindowServerId(windows@[j].number as u32)),
                    false,
                ),
        decreases windows@.len() - i,
    {
        let window = windows[i];
        if is_desktop_on(&window, screen) {
            if let Some(info) = window.info {
                if make_key_window(info.pid, WindowServerId::new(window.number as u32)) {
                    assert(windows@[i as int] == window);
                    return true;
                }
            }
        }
        i += 1;
    }
    false
}

/// What a call to Core Graphics came to: zero is success, and anything else is the error itself.
pub fn cg_ok(error: i32) -> (result: Result<(), i32>)
    ensures
        result == if error == 0 {
            Ok(())
        } else {
            Err::<(), i32>(error)
        },
{
    if error == 0 {
        Ok(())
    } else {
        Err(error)
    }
}

/// Levels from the lowest up: the desktop's, then the bar's, then those of windows. Each is one of the
/// three, and a level below a desktop one is the desktop's too.
pub proof fn a_level_is_the_desktops_or_the_bars(
    layer: i64,
    lower: i64,
    desktop: bool,
    bar: bool,
    lower_desktop: bool,
)
    requires
        lower <= layer,
        call_ensures(is_desktop_layer, (layer,), desktop),
        call_ensures(is_bar_layer, (layer,), bar),
        call_ensures(is_desktop_layer, (lower,), lower_desktop),
    ensures
        !(desktop && bar),
        desktop ==> lower_desktop,
        layer >= 0 <==> !desktop && !bar,
        desktop <==> layer <= -2147483600,
{
}

/// Some of a window shows on a display when the two have an area in common.
pub proof fn a_window_overlaps_by_an_area(display: Rect, frame: Rect)
    ensures
        overlaps(display, frame) <==> {
            &&& frame.size.width > 0 && frame.size.height > 0
            &&& display.size.width > 0 && display.size.height > 0
            &&& frame.origin.x < display.origin.x + display.size.width
            &&& display.origin.x < frame.origin.x + frame.size.width
            &&& frame.origin.y < display.origin.y + display.size.height
            &&& display.origin.y < frame.origin.y + frame.size.height
        },
{
}

/// A window counts with the desktop or the bar when its level is theirs, it shows on the display and
/// it has a number; what was left out of the listing of it keeps it from counting.
pub proof fn a_window_counts_by_its_level(window: ListedWindow, display: Rect)
    ensures
        window.layer is None || window.bounds is None || window.number is None ==> !counts(
            window,
            display,
            true,
        ) && !counts(window, display, false),
        window.layer is Some && window.number is Some && window.bounds is Some && overlaps(
            display,
            window.bounds->0,
        ) ==> {
            &&& counts(window, display, true) <==> window.layer->0 <= -2147483600
            &&& counts(window, display, false) <==> window.layer->0 > -2147483600 && window.layer->0
                < 0
        },
        window.bounds matches Some(bounds) ==> !overlaps(display, bounds) ==> !counts(
            window,
            display,
            true,
        ) && !counts(window, display, false),
{
}

/// The windows counted are those of the listing that count, in its order.
pub proof fn what_counts_is_kept_in_order(
    listing: Seq<ListedWindow>,
    more: Seq<ListedWindow>,
    display: Rect,
    desktop: bool,
    window: ListedWindow,
)
    ensures
        counted(listing + more, display, desktop) == counted(listing, display, desktop) + counted(
            more,
            display,
            desktop,
        ),
        counted(listing, display, desktop).contains(window) <==> listing.contains(window) && counts(
            window,
            display,
            desktop,
        ),
        counted(listing, display, desktop).len() <= listing.len(),
    decreases listing.len() + more.len(),
{
    if more.len() == 0 {
        assert(listing + more =~= listing);
        assert(counted(listing, display, desktop) + counted(more, display, desktop) =~= counted(
            listing,
            display,
            desktop,
        ));
    } else {
        what_counts_is_kept_in_order(listing, more.drop_last(), display, desktop, window);
        assert((listing + more).drop_last() =~= listing + more.drop_last());
        assert((listing + more).last() == more.last());
        assert(counted(listing + more, display, desktop) =~= counted(listing, display, desktop)
            + counted(more, display, desktop));
    }
    if listing.len() > 0 {
        let rest = listing.drop_last();
        let last = listing.last();
        what_counts_is_kept_in_order(rest, Seq::empty(), display, desktop, window);
        let before = counted(rest, display, desktop);
        assert(listing.contains(window) <==> rest.contains(window) || window == last) by {
            if rest.contains(window) {
                let i = choose|i: int| 0 <= i < rest.len() && rest[i] == window;
                assert(listing[i] == window);
            }
            assert(listing[listing.len() - 1] == last);
            if listing.contains(window) && window != last {
                let i = choose|i: int| 0 <= i < listing.len() && listing[i] == window;
                assert(rest[i] == window);
            }
        }
        assert(before.push(last).contains(window) <==> before.contains(window) || window == last) by {
            if before.contains(window) {
                let i = choose|i: int| 0 <= i < before.len() && before[i] == window;
                assert(before.push(last)[i] == window);
            }
            assert(before.push(last)[before.len() as int] == last);
        }
    }
}

/// The backdrop names each window it counts by its own number, one for one, and has the wallpaper when
/// the owner or the name of one of them says so.
pub proof fn a_backdrop_names_its_windows(
    listing: Vec<ListedWindow>,
    display: Rect,
    backdrop: DesktopBackdrop,
    i: int,
)
    requires
        call_ensures(desktop_backdrop_windows, (&listing, display), backdrop),
    ensures
        backdrop.windows@.len() == counted(listing@, display, true).len(),
        0 <= i < backdrop.windows@.len() && 0 <= counted(listing@, display, true)[i].number->0
            <= u32::MAX ==> backdrop.windows@[i].0 == counted(listing@, display, true)[i].number->0,
        0 <= i < counted(listing@, display, true).len() && (counted(
            listing@,
            display,
            true,
        )[i].owner matches Some(owner) && owner@ == "Wallpaper"@) ==> backdrop.has_wallpaper,
        backdrop.windows@.len() == 0 ==> !backdrop.has_wallpaper,
{
    let counted_windows = counted(listing@, display, true);
    if 0 <= i < counted_windows.len() {
        if let Some(owner) = counted_windows[i].owner {
            if owner@ == "Wallpaper"@ {
                assert(owner@.subrange(0, "Wallpaper"@.len() as int) =~= "Wallpaper"@);
                assert(occurs_at(owner@, "Wallpaper"@, 0));
                assert(names_wallpaper(counted_windows[i].owner));
            }
        }
    }
}

/// A text names the wallpaper wherever in it the word stands.
pub proof fn the_wallpaper_is_named_anywhere(
    before: Seq<char>,
    behind: Seq<char>,
    text: Option<String>,
)
    requires
        text is Some ==> text->0@ == before + "Wallpaper"@ + behind,
    ensures
        names_wallpaper(text) <==> text is Some,
{
    if let Some(value) = text {
        let at = before.len() as int;
        assert(value@.subrange(at, at + "Wallpaper"@.len()) =~= "Wallpaper"@);
        assert(occurs_at(value@, "Wallpaper"@, at));
    }
}

/// The bar's frame is the smallest that covers its windows: each of its edges is an edge of one of
/// them. Without a window there is no frame.
pub proof fn the_bar_is_no_larger_than_its_windows(windows: Seq<ListedWindow>)
    requires
        forall|j: int|
            0 <= j < windows.len() ==> ((#[trigger] windows[j]).bounds matches Some(bounds)
                && bounds.inside(1)),
    ensures
        windows.len() == 0 <==> united_all(windows) is None,
        united_all(windows) matches Some(union) ==> {
            &&& edges_inside(union)
            &&& exists|i: int|
                0 <= i < windows.len() && (#[trigger] windows[i]).bounds->0.left() == union.left()
            &&& exists|i: int|
                0 <= i < windows.len() && (#[trigger] windows[i]).bounds->0.top() == union.top()
            &&& exists|i: int|
                0 <= i < windows.len() && (#[trigger] windows[i]).bounds->0.right() == union.right()
            &&& exists|i: int|
                0 <= i < windows.len() && (#[trigger] windows[i]).bounds->0.bottom()
                    == union.bottom()
        },
    decreases windows.len(),
{
    if windows.len() > 0 {
        let rest = windows.drop_last();
        assert forall|j: int| 0 <= j < rest.len() implies ((#[trigger] rest[j]).bounds matches Some(
            bounds,
        ) && bounds.inside(1)) by {
            assert(rest[j] == windows[j]);
        }
        the_bar_is_no_larger_than_its_windows(rest);
        let n = windows.len() - 1;
        assert(windows[n].bounds is Some);
        let union = united_all(windows)->0;
        if rest.len() > 0 {
            let before = united_all(rest)->0;
            let l = choose|i: int|
                0 <= i < rest.len() && (#[trigger] rest[i]).bounds->0.left() == before.left();
            let t = choose|i: int|
                0 <= i < rest.len() && (#[trigger] rest[i]).bounds->0.top() == before.top();
            let r = choose|i: int|
                0 <= i < rest.len() && (#[trigger] rest[i]).bounds->0.right() == before.right();
            let b = choose|i: int|
                0 <= i < rest.len() && (#[trigger] rest[i]).bounds->0.bottom() == before.bottom();
            assert(windows[l] == rest[l] && windows[t] == rest[t] && windows[r] == rest[r]
                && windows[b] == rest[b]);
            assert(windows[l].bounds->0.left() == union.left() || windows[n].bounds->0.left()
                == union.left());
            assert(windows[t].bounds->0.top() == union.top() || windows[n].bounds->0.top()
                == union.top());
            assert(windows[r].bounds->0.right() == union.right() || windows[n].bounds->0.right()
                == union.right());
            assert(windows[b].bounds->0.bottom() == union.bottom() || windows[n].bounds->0.bottom()
                == union.bottom());
        } else {
            assert(windows[n].bounds->0.left() == union.left());
        }
    }
}

/// The bar names each window it counts by its own number, and lies where they do.
pub proof fn a_bar_lies_where_its_windows_do(
    listing: Vec<ListedWindow>,
    display: Rect,
    strip: BarStrip,
    i: int,
)
    requires
        call_ensures(bar_strip, (&listing, display), strip),
    ensures
        strip.windows@.len() == counted(listing@, display, false).len(),
        strip.bounds is Some ==> strip.windows@.len() > 0,
        0 <= i < strip.windows@.len() && 0 <= counted(listing@, display, false)[i].number->0
            <= u32::MAX ==> strip.windows@[i].0 == counted(listing@, display, false)[i].number->0,
        strip.windows@.len() == 1 ==> strip.bounds == counted(listing@, display, false)[0].bounds,
{
    let windows = counted(listing@, display, false);
    if windows.len() == 1 {
        assert(united_all(windows.drop_last()) is None);
    }
}

/// Mission Control's overlay is the Dock's window without a name on level eighteen; a named window, or
/// one of another owner or level, is not.
pub proof fn mission_control_is_the_docks_nameless_window(window: ListedWindow)
    ensures
        is_mission_control(window) ==> window.name is None && window.owner is Some
            && window.owner->0@ == "Dock"@ && window.layer is Some && window.layer->0 == 18,
        window.name is None && window.owner is Some && window.owner->0@ == "Dock"@
            && window.layer is Some && window.layer->0 == 18 ==> is_mission_control(window),
{
}

/// The overlay is seen exactly when the listing holds it.
pub proof fn the_overlay_is_seen_when_listed(listing: Vec<ListedWindow>, visible: bool, i: int)
    requires
        call_ensures(mission_control_dock_overlay_visible, (&listing,), visible),
    ensures
        0 <= i < listing@.len() && is_mission_control(listing@[i]) ==> visible,
        listing@.len() == 0 ==> !visible,
        (forall|j: int| 0 <= j < listing@.len() ==> !is_mission_control(#[trigger] listing@[j]))
            ==> !visible,
{
    if 0 <= i < listing@.len() && is_mission_control(listing@[i]) {
        assert(overlay_among(listing@));
    }
}

/// A desktop window's middle lies on its screen and its level below the normal one; a number that is
/// no window's is no desktop.
pub proof fn a_desktop_window_lies_on_its_screen(window: RoleWindow, screen: Rect)
    ensures
        window.number < 0 || window.number > u32::MAX || window.info is None ==> !is_desktop_of(
            window,
            screen,
        ),
        window.info matches Some(info) ==> {
            &&& info.layer >= 0 ==> !is_desktop_of(window, screen)
            &&& 0 <= window.number <= u32::MAX && info.layer < 0 && info.frame == screen
                && screen.size.width >= 0 && screen.size.height >= 0 ==> is_desktop_of(
                window,
                screen,
            )
            &&& is_desktop_of(window, screen) ==> {
                let across = 2 * info.frame.origin.x + info.frame.size.width;
                let down = 2 * info.frame.origin.y + info.frame.size.height;
                &&& 2 * screen.origin.x <= across <= 2 * (screen.origin.x + screen.size.width)
                &&& 2 * screen.origin.y <= down <= 2 * (screen.origin.y + screen.size.height)
            }
            &&& 0 <= window.number <= u32::MAX && info.layer < 0 && ({
                let across = 2 * info.frame.origin.x + info.frame.size.width;
                let down = 2 * info.frame.origin.y + info.frame.size.height;
                &&& 2 * screen.origin.x <= across <= 2 * (screen.origin.x + screen.size.width)
                &&& 2 * screen.origin.y <= down <= 2 * (screen.origin.y + screen.size.height)
            }) ==> is_desktop_of(window, screen)
        },
{
}

/// Zero is success; any other number is the failure it stands for.
pub proof fn a_failure_is_its_number(error: i32, result: Result<(), i32>)
    requires
        call_ensures(cg_ok, (error,), result),
    ensures
        result is Ok <==> error == 0,
        result matches Err(e) ==> e == error,
{
}

/// The desktop of a screen takes the keyboard when it accepts it, and no other window is given it; a
/// screen without an identity or a listing gives it to none.
pub proof fn only_a_desktop_takes_the_keyboard<F: Fn(i32, WindowServerId) -> bool>(
    screen: Rect,
    display_uuid: Option<&str>,
    role_windows: Option<&Vec<RoleWindow>>,
    make_key_window: F,
    focused: bool,
)
    requires
        forall|pid: i32, id: WindowServerId| call_requires(make_key_window, (pid, id)),
        call_ensures(
            focus_desktop_window::<F>,
            (screen, display_uuid, role_windows, make_key_window),
            focused,
        ),
    ensures
        display_uuid is None ==> !focused,
        role_windows is None ==> !focused,
        role_windows matches Some(windows) ==> (forall|i: int|
            0 <= i < windows@.len() ==> !is_desktop_of(#[trigger] windows@[i], screen)) ==> !focused,
        focused ==> role_windows is Some && exists|pid: i32, id: WindowServerId| #[trigger]
            call_ensures(make_key_window, (pid, id), true),
{
    if focused {
        let windows = role_windows->0@;
        let i = choose|i: int|
            0 <= i < role_windows->0@.len() && is_desktop_of(
                #[trigger] role_windows->0@[i],
                screen,
            ) && call_ensures(
                make_key_window,
                (role_windows->0@[i].info->0.pid, WindowServerId(role_windows->0@[i].number as u32)),
                true,
            ) && forall|j: int|
                0 <= j < i && is_desktop_of(#[trigger] role_windows->0@[j], screen) ==> call_ensures(
                    make_key_window,
                    (
                        role_windows->0@[j].info->0.pid,
                        WindowServerId(role_windows->0@[j].number as u32),
                    ),
                    false,
                );
        assert(is_desktop_of(windows[i], screen));
        assert(call_ensures(
            make_key_window,
            (windows[i].info->0.pid, WindowServerId(windows[i].number as u32)),
            true,
        ));
    }
}

} // verus!
