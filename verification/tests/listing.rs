//! The desktop, the bar and Mission Control among the listed windows.
use rini::geometry::{Point, Rect, Size};
use rini::ids::WindowServerId;
use rini::listing::{
    bar_strip, cg_ok, desktop_backdrop_windows, focus_desktop_window, is_bar_layer,
    is_desktop_layer, mission_control_dock_overlay_visible, ListedWindow, RoleWindow, WindowInfo,
    DESKTOP_CEILING,
};

fn rect(x: i64, y: i64, w: i64, h: i64) -> Rect {
    Rect::new(Point::new(x * 1000, y * 1000), Size::new(w * 1000, h * 1000))
}

fn display() -> Rect {
    rect(0, 0, 1728, 1117)
}

fn listed(layer: i64, bounds: Rect, number: i64, owner: &str, name: Option<&str>) -> ListedWindow {
    ListedWindow {
        layer: Some(layer),
        bounds: Some(bounds),
        number: Some(number),
        owner: Some(owner.to_string()),
        name: name.map(str::to_string),
    }
}

#[test]
fn only_the_status_bar_counts_as_the_bar() {
    assert!(is_bar_layer(-20), "sketchybar, 24 windows across the strip");
    assert!(!is_bar_layer(0), "normal windows");
    assert!(!is_bar_layer(101), "rini's own overlay");
    assert!(!is_bar_layer(-2147483601), "Notification Center widgets");
    assert!(!is_bar_layer(-2147483603), "Finder's desktop icons");
    assert!(!is_bar_layer(-2147483624), "the wallpaper, owned by Dock");
    assert!(!is_bar_layer(-2147483626), "the display backstop");
}

#[test]
fn the_desktop_is_everything_at_or_below_the_ceiling() {
    assert!(is_desktop_layer(-2147483626), "the display backstop");
    assert!(is_desktop_layer(-2147483624), "the wallpaper, owned by Dock");
    assert!(is_desktop_layer(-2147483603), "Finder's desktop icons");
    assert!(is_desktop_layer(-2147483602), "the window server's underbelly");
    assert!(is_desktop_layer(-2147483601), "Notification Center's widgets");
    assert!(is_desktop_layer(DESKTOP_CEILING), "the ceiling itself");
    assert!(!is_desktop_layer(-20), "sketchybar");
    assert!(!is_desktop_layer(0), "normal windows");
    assert!(!is_desktop_layer(101), "rini's own overlay");
}

#[test]
fn no_level_is_both_desktop_and_bar() {
    for layer in [-2147483626, -2147483624, -2147483603, -2147483600, -2147483599, -20, -1, 0, 101] {
        assert!(!(is_desktop_layer(layer) && is_bar_layer(layer)), "layer {layer} counted twice");
    }
}

#[test]
fn the_bar_range_excludes_both_of_its_own_edges() {
    assert!(!is_bar_layer(-2147483600), "the desktop ceiling itself is backdrop");
    assert!(is_bar_layer(-2147483599));
    assert!(is_bar_layer(-1));
}

#[test]
fn the_backdrop_is_what_lies_on_the_desktop_of_this_display() {
    let full = display();
    let elsewhere = rect(1728, 0, 3008, 1692);
    let listing = vec![
        listed(-2147483626, full, 4, "Window Server", None),
        listed(-2147483624, full, 5, "Dock", Some("Wallpaper-1234")),
        listed(-2147483624, elsewhere, 6, "Dock", Some("Wallpaper-5678")),
        listed(-20, rect(0, 0, 1728, 32), 7, "sketchybar", None),
        listed(0, full, 8, "Ghostty", Some("Wallpaper")),
        ListedWindow { number: None, ..listed(-2147483603, full, 9, "Finder", None) },
    ];
    let backdrop = desktop_backdrop_windows(&listing, full);
    assert_eq!(backdrop.windows, vec![WindowServerId::new(4), WindowServerId::new(5)]);
    assert!(backdrop.has_wallpaper);
    let icons = vec![listed(-2147483603, full, 9, "Finder", None)];
    assert!(!desktop_backdrop_windows(&icons, full).has_wallpaper);
    let agent = vec![listed(-2147483624, full, 9, "Wallpaper", None)];
    assert!(desktop_backdrop_windows(&agent, full).has_wallpaper);
}

#[test]
fn the_bar_occupies_the_union_of_its_windows() {
    let listing = vec![
        listed(-20, rect(0, 0, 400, 32), 7, "sketchybar", None),
        listed(-20, rect(1500, 4, 228, 30), 8, "sketchybar", None),
        listed(-20, rect(5000, 0, 400, 32), 9, "sketchybar", None),
        listed(0, display(), 10, "Ghostty", None),
    ];
    let strip = bar_strip(&listing, display());
    assert_eq!(strip.windows, vec![WindowServerId::new(7), WindowServerId::new(8)]);
    assert_eq!(strip.bounds, Some(rect(0, 0, 1728, 34)));
    assert_eq!(bar_strip(&Vec::new(), display()).bounds, None);
}

#[test]
fn mission_control_is_the_docks_nameless_overlay() {
    let overlay = listed(18, display(), 1, "Dock", None);
    assert!(mission_control_dock_overlay_visible(&vec![overlay]));
    for other in [
        listed(18, display(), 1, "Dock", Some("Fullscreen Backdrop")),
        listed(18, display(), 1, "Finder", None),
        listed(20, display(), 1, "Dock", None),
        ListedWindow { owner: None, ..listed(18, display(), 1, "Dock", None) },
    ] {
        assert!(!mission_control_dock_overlay_visible(&vec![other]));
    }
}

#[test]
fn the_desktop_of_a_screen_takes_the_keyboard() {
    let info = |layer: i32, frame: Rect| Some(WindowInfo { pid: 3, layer, frame });
    let windows = vec![
        RoleWindow { number: -1, info: info(-5, display()) },
        RoleWindow { number: 11, info: None },
        RoleWindow { number: 12, info: info(0, display()) },
        RoleWindow { number: 13, info: info(-5, rect(1728, 0, 1000, 1000)) },
        RoleWindow { number: 14, info: info(-5, display()) },
        RoleWindow { number: 15, info: info(-5, display()) },
    ];
    let takes = |wanted: u32| {
        focus_desktop_window(display(), Some("uuid"), Some(&windows), |pid, id| {
            assert_eq!(pid, 3);
            id.as_u32() == wanted
        })
    };
    assert!(takes(14) && takes(15));
    assert!(!takes(11) && !takes(12) && !takes(13));
    assert!(!focus_desktop_window(display(), None, Some(&windows), |_, _| true));
    assert!(!focus_desktop_window(display(), Some("uuid"), None, |_, _| true));
}

#[test]
fn a_zero_result_is_success() {
    assert_eq!(cg_ok(0), Ok(()));
    assert_eq!(cg_ok(1000), Err(1000));
}
