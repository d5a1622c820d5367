//! What app rules do to windows.
use rini::app_rules::{
    AppRuleEffects, AppRuleOutcome, AppRulePlacement, AppRulePosition, AppRuleResize, AppRuleSize,
    AppRuleWorkspaceFocus,
};
use rini::geometry::{Point, Rect, Size};
use rini::ids::{SpaceId, WindowId};
use rini::protocol::events::WorkspaceId;

fn effects(floating: bool) -> AppRuleEffects {
    AppRuleEffects {
        workspace_id: WorkspaceId { idx: 1, version: 1 },
        floating,
        position: None,
        size: None,
        focus: false,
        prev_rule_decision: false,
    }
}

fn rect(x: i64, y: i64, w: i64, h: i64) -> Rect {
    Rect::new(Point::new(x * 1000, y * 1000), Size::new(w * 1000, h * 1000))
}

const SIZE: AppRuleSize = AppRuleSize { w: Some(640_000), h: Some(480_000) };

#[test]
fn a_window_keeps_floating_unless_a_rule_decided_it() {
    assert!(effects(true).should_float(false));
    assert!(effects(false).should_float(true));
    assert!(!effects(false).should_float(false));
    let decided = AppRuleEffects { prev_rule_decision: true, ..effects(false) };
    assert!(!decided.should_float(true));
}

#[test]
fn a_rule_places_a_floating_window_and_resizes_a_tiled_one() {
    let (window, space) = (WindowId::new(1, 1), SpaceId::new(3));
    assert!(effects(true).floating_placement(window, space).is_none(), "nothing to place");
    let floating = AppRuleEffects { size: Some(SIZE), ..effects(true) };
    let placement = floating.floating_placement(window, space).unwrap();
    assert_eq!((placement.window, placement.size), (window, Some(SIZE)));
    assert!(floating.tiled_resize(window, space, false).is_none());
    let tiled = AppRuleEffects { size: Some(SIZE), ..effects(false) };
    assert!(tiled.floating_placement(window, space).is_none());
    assert_eq!(tiled.tiled_resize(window, space, false).unwrap().size, SIZE);
    assert!(tiled.tiled_resize(window, space, true).is_none(), "still floating");
    assert!(effects(false).tiled_resize(window, space, false).is_none(), "no size");
}

#[test]
fn a_position_is_a_share_of_the_room_left_over() {
    let placement = AppRulePlacement {
        window: WindowId::new(1, 1),
        space: SpaceId::new(3),
        position: Some(AppRulePosition { x: 400, y: 700 }),
        size: Some(AppRuleSize { w: Some(640_000), h: None }),
    };
    let screen = rect(100, -50, 1640, 1081);
    let frame = placement.resolve_frame(rect(7, 8, 300, 481), screen);
    assert_eq!(frame.size, Size::new(640_000, 481_000));
    assert_eq!(frame.x, (100 + 400) * 1_000_000);
    assert_eq!(frame.y, (-50 + 420) * 1_000_000);
    let too_wide = AppRulePlacement { size: Some(AppRuleSize { w: Some(9_000_000), h: None }), ..placement };
    assert_eq!(too_wide.resolve_frame(rect(7, 8, 300, 481), screen).x, 100 * 1_000_000);
    let unplaced = AppRulePlacement { position: None, ..placement };
    let frame = unplaced.resolve_frame(rect(7, 8, 300, 481), screen);
    assert_eq!((frame.x, frame.y), (7 * 1_000_000, 8 * 1_000_000));
}

#[test]
fn an_outcome_hands_out_what_was_put_in() {
    let (window, space) = (WindowId::new(1, 1), SpaceId::new(3));
    let mut outcome = AppRuleOutcome::default();
    assert!(!outcome.has_resizes());
    outcome.push_placement(AppRulePlacement { window, space, position: None, size: Some(SIZE) });
    let resize = AppRuleResize {
        window,
        space,
        workspace_id: WorkspaceId { idx: 1, version: 1 },
        size: SIZE,
    };
    outcome.push_resize(resize);
    assert!(outcome.has_resizes());
    let focus = AppRuleWorkspaceFocus { window, space, workspace_index: 2 };
    outcome.set_workspace_focus(focus);
    let (placements, resizes, focused) = outcome.into_parts();
    assert_eq!((placements.len(), resizes), (1, vec![resize]));
    assert_eq!(focused, Some(focus));
}
