//! What an app rule does to a window: where it goes, whether it floats, and how large it is.
use vstd::prelude::*;

use crate::geometry::{greater, greater_of, Rect, Size, LIMIT};
use crate::ids::{SpaceId, WindowId};
use crate::protocol::events::WorkspaceId;

verus! {

/// Where on its screen a window goes: a share of the room left over, in thousandths.
#[derive(Clone, Copy, Debug, PartialEq, Eq, Structural)]
pub struct AppRulePosition {
    pub x: i64,
    pub y: i64,
}

/// How large a window is made, where the rule says so.
#[derive(Clone, Copy, Debug, PartialEq, Eq, Structural)]
pub struct AppRuleSize {
    pub w: Option<i64>,
    pub h: Option<i64>,
}

/// Complete result of applying a managed app rule to workspace policy.
///
/// The layout engine consumes this as one unit so rule effects do not get independently re-derived
/// at each integration point.
#[derive(Clone, Copy, Debug, PartialEq, Eq, Structural)]
pub struct AppRuleEffects {
    pub workspace_id: WorkspaceId,
    pub floating: bool,
    pub position: Option<AppRulePosition>,
    pub size: Option<AppRuleSize>,
    pub focus: bool,
    pub prev_rule_decision: bool,
}

impl AppRuleEffects {
    /// The window floats: by this rule, or because it did and no earlier rule decided that.
    pub open spec fn floats(self, was_floating: bool) -> bool {
        self.floating || (!self.prev_rule_decision && was_floating)
    }

    pub fn should_float(self, was_floating: bool) -> (floats: bool)
        ensures
            floats == self.floats(was_floating),
            self.floating ==> floats,
            !self.floating && self.prev_rule_decision ==> !floats,
            !self.floating && !self.prev_rule_decision ==> floats == was_floating,
    {
        self.floating || (!self.prev_rule_decision && was_floating)
    }

    /// Where a window that this rule floats is put; nothing when the rule says nothing of it.
    pub fn floating_placement(self, window: WindowId, space: SpaceId) -> (placement: Option<
        AppRulePlacement,
    >)
        ensures
            placement == if self.floating && (self.position is Some || self.size is Some) {
                Some(
                    AppRulePlacement { window, space, position: self.position, size: self.size },
                )
            } else {
                None
            },
    {
        if self.floating && (self.position.is_some() || self.size.is_some()) {
            Some(AppRulePlacement { window, space, position: self.position, size: self.size })
        } else {
            None
        }
    }

    /// How a window that stays in its layout is resized; nothing when it floats or the rule names no
    /// size.
    pub fn tiled_resize(self, window: WindowId, space: SpaceId, was_floating: bool) -> (resize:
        Option<AppRuleResize>)
        ensures
            resize == if !self.floats(was_floating) && self.size is Some {
                Some(
                    AppRuleResize {
                        window,
                        space,
                        workspace_id: self.workspace_id,
                        size: self.size->0,
                    },
                )
            } else {
                None
            },
    {
        match self.size {
            Some(size) => if self.should_float(was_floating) {
                None
            } else {
                Some(AppRuleResize { window, space, workspace_id: self.workspace_id, size })
            },
            None => None,
        }
    }
}

/// Workspace-policy result for one evaluated window.
#[derive(Clone, Copy, Debug, PartialEq, Eq, Structural)]
pub enum AppRuleResult {
    Managed(AppRuleEffects),
    Unmanaged,
}

/// One-shot frame request derived from a floating app rule.
#[derive(Clone, Copy, Debug, PartialEq, Eq, Structural)]
pub struct AppRulePlacement {
    pub window: WindowId,
    pub space: SpaceId,
    pub position: Option<AppRulePosition>,
    pub size: Option<AppRuleSize>,
}

/// A frame a rule resolves to. The origin is in millionths of a point, so that a share of the room
/// left over is exact; the extent is in thousandths.
#[derive(Clone, Copy, Debug, PartialEq, Eq)]
pub struct ResolvedFrame {
    pub x: i128,
    pub y: i128,
    pub size: Size,
}

/// The extent a rule gives a window.
pub open spec fn resolved_size(size: Option<AppRuleSize>, current: Size) -> Size {
    match size {
        Some(given) => Size {
            width: match given.w {
                Some(width) => width,
                None => current.width,
            },
            height: match given.h {
                Some(height) => height,
                None => current.height,
            },
        },
        None => current,
    }
}

/// The room a window of this extent leaves on a screen of that; none when it is the larger.
pub open spec fn room(screen: int, window: int) -> int {
    greater(screen - window, 0)
}

impl AppRulePlacement {
    /// The frame the rule asks for: the extents it names, at its share of the room those leave on
    /// the screen; where it names no position, at the current one.
    pub fn resolve_frame(self, current: Rect, screen: Rect) -> (frame: ResolvedFrame)
        requires
            screen.inside(1),
            resolved_size(self.size, current.size).inside(1),
        ensures
            frame.size == resolved_size(self.size, current.size),
            self.size matches Some(given) ==> {
                &&& given.w matches Some(width) ==> frame.size.width == width
                &&& given.w is None ==> frame.size.width == current.size.width
                &&& given.h matches Some(height) ==> frame.size.height == height
                &&& given.h is None ==> frame.size.height == current.size.height
            },
            self.size is None ==> frame.size == current.size,
            self.position is None ==> frame.x == 1000 * current.origin.x && frame.y == 1000
                * current.origin.y,
            self.position matches Some(position) ==> {
                &&& frame.x == 1000 * screen.origin.x + room(
                    screen.size.width as int,
                    frame.size.width as int,
                ) * position.x
                &&& frame.y == 1000 * screen.origin.y + room(
                    screen.size.height as int,
                    frame.size.height as int,
                ) * position.y
            },
    {
        let mut size: Size = current.size;
        if let Some(given) = self.size {
            if let Some(width) = given.w {
                size.width = width;
            }
            if let Some(height) = given.h {
                size.height = height;
            }
        }
        match self.position {
            Some(position) => {
                let across: i128 = greater_of(screen.size.width as i128 - size.width as i128, 0);
                let down: i128 = greater_of(screen.size.height as i128 - size.height as i128, 0);
                proof {
                    a_share_is_small(across as int, position.x as int);
                    a_share_is_small(down as int, position.y as int);
                }
                ResolvedFrame {
                    x: 1000 * screen.origin.x as i128 + across * position.x as i128,
                    y: 1000 * screen.origin.y as i128 + down * position.y as i128,
                    size,
                }
            },
            None => ResolvedFrame {
                x: 1000 * current.origin.x as i128,
                y: 1000 * current.origin.y as i128,
                size,
            },
        }
    }
}

proof fn a_share_is_small(room: int, share: int)
    requires
        0 <= room <= 2 * LIMIT,
        i64::MIN <= share <= i64::MAX,
    ensures
        -0x4000_0000_0000_0000_0000_0000_0000_0000 < room * share
            < 0x4000_0000_0000_0000_0000_0000_0000_0000,
{
    assert(-0x4000_0000_0000_0000_0000_0000_0000_0000 < room * share
        < 0x4000_0000_0000_0000_0000_0000_0000_0000) by (nonlinear_arith)
        requires
            0 <= room <= 18_014_398_509_481_984,
            -0x8000_0000_0000_0000 <= share <= 0x7fff_ffff_ffff_ffff,
    ;
}

/// One-time tiled resize applied after the window has entered its layout tree.
#[derive(Clone, Copy, Debug, PartialEq, Eq, Structural)]
pub struct AppRuleResize {
    pub window: WindowId,
    pub space: SpaceId,
    pub workspace_id: WorkspaceId,
    pub size: AppRuleSize,
}

/// Switching workspaces requires saving the currently visible floating frames before the engine
/// activates the target.
#[derive(Clone, Copy, Debug, PartialEq, Eq, Structural)]
pub struct AppRuleWorkspaceFocus {
    pub window: WindowId,
    pub space: SpaceId,
    pub workspace_index: usize,
}

/// Follow-up integration work produced while applying a batch of app rules, returned to the owning
/// layer and consumed explicitly rather than stored as transient engine state.
#[derive(Debug)]
pub struct AppRuleOutcome {
    placements: Vec<AppRulePlacement>,
    resizes: Vec<AppRuleResize>,
    workspace_focus: Option<AppRuleWorkspaceFocus>,
}

impl AppRuleOutcome {
    /// The placements asked for so far.
    pub closed spec fn placed(self) -> Seq<AppRulePlacement> {
        self.placements@
    }

    /// The resizes asked for so far.
    pub closed spec fn resized(self) -> Seq<AppRuleResize> {
        self.resizes@
    }

    /// The focus asked for last.
    pub closed spec fn focused(self) -> Option<AppRuleWorkspaceFocus> {
        self.workspace_focus
    }

    pub fn push_placement(&mut self, placement: AppRulePlacement)
        ensures
            final(self).placed() == old(self).placed().push(placement),
            final(self).resized() == old(self).resized(),
            final(self).focused() == old(self).focused(),
    {
        self.placements.push(placement);
    }

    pub fn push_resize(&mut self, resize: AppRuleResize)
        ensures
            final(self).placed() == old(self).placed(),
            final(self).resized() == old(self).resized().push(resize),
            final(self).focused() == old(self).focused(),
    {
        self.resizes.push(resize);
    }

    pub fn has_resizes(&self) -> (some: bool)
        ensures
            some == (self.resized().len() > 0),
    {
        self.resizes.len() > 0
    }

    pub fn set_workspace_focus(&mut self, focus: AppRuleWorkspaceFocus)
        ensures
            final(self).placed() == old(self).placed(),
            final(self).resized() == old(self).resized(),
            final(self).focused() == Some(focus),
    {
        self.workspace_focus = Some(focus);
    }

    pub fn into_parts(self) -> (parts: (
        Vec<AppRulePlacement>,
        Vec<AppRuleResize>,
        Option<AppRuleWorkspaceFocus>,
    ))
        ensures
            parts.0@ == self.placed(),
            parts.1@ == self.resized(),
            parts.2 == self.focused(),
    {
        (self.placements, self.resizes, self.workspace_focus)
    }
}

impl Default for AppRuleOutcome {
    fn default() -> (outcome: Self)
        ensures
            outcome.placed().len() == 0,
            outcome.resized().len() == 0,
            outcome.focused() is None,
    {
        AppRuleOutcome { placements: Vec::new(), resizes: Vec::new(), workspace_focus: None }
    }
}

/// A rule either places a floating window or resizes a tiled one, never both: a window it floats is
/// not resized in a layout, and one it resizes there is not floating.
pub proof fn a_rule_places_or_resizes(effects: AppRuleEffects, was_floating: bool)
    ensures
        effects.floating ==> effects.floats(was_floating),
        !effects.floats(was_floating) ==> !effects.floating,
        effects.prev_rule_decision ==> effects.floats(was_floating) == effects.floating,
{
}

/// A position between none and all of the room left over keeps a window that fits on its screen.
pub proof fn a_share_of_the_room_keeps_a_window_on_its_screen(screen: int, window: int, share: int)
    requires
        0 <= window <= screen,
        0 <= share <= 1000,
    ensures
        0 <= room(screen, window) * share,
        room(screen, window) * share + 1000 * window <= 1000 * screen,
{
    assert(0 <= (screen - window) * share <= (screen - window) * 1000) by (nonlinear_arith)
        requires
            0 <= window <= screen,
            0 <= share <= 1000,
    ;
}

/// A window has exactly the extents its rule names, and keeps the ones the rule does not name.
pub proof fn a_named_extent_is_taken(
    rule: AppRulePlacement,
    current: Rect,
    screen: Rect,
    frame: ResolvedFrame,
)
    requires
        call_ensures(AppRulePlacement::resolve_frame, (rule, current, screen), frame),
    ensures
        rule.size matches Some(given) ==> {
            &&& given.w matches Some(width) ==> frame.size.width == width
            &&& given.h matches Some(height) ==> frame.size.height == height
        },
        rule.size is None || rule.size->0.w is None ==> frame.size.width == current.size.width,
        rule.size is None || rule.size->0.h is None ==> frame.size.height == current.size.height,
{
}

/// A position of nothing is the screen's top left corner, one of everything puts a window that fits
/// against the right and bottom edges, and no position leaves the window where it is.
pub proof fn a_position_spans_the_screen(
    rule: AppRulePlacement,
    current: Rect,
    screen: Rect,
    frame: ResolvedFrame,
)
    requires
        call_ensures(AppRulePlacement::resolve_frame, (rule, current, screen), frame),
    ensures
        rule.position matches Some(at) ==> {
            &&& at.x == 0 ==> frame.x == 1000 * screen.origin.x
            &&& at.y == 0 ==> frame.y == 1000 * screen.origin.y
            &&& at.x == 1000 && frame.size.width <= screen.size.width ==> frame.x + 1000
                * frame.size.width == 1000 * (screen.origin.x + screen.size.width)
            &&& at.y == 1000 && frame.size.height <= screen.size.height ==> frame.y + 1000
                * frame.size.height == 1000 * (screen.origin.y + screen.size.height)
            &&& at.x == 500 && frame.size.width <= screen.size.width ==> 2 * frame.x + 1000
                * frame.size.width == 1000 * (2 * screen.origin.x + screen.size.width)
            &&& at.y == 500 && frame.size.height <= screen.size.height ==> 2 * frame.y + 1000
                * frame.size.height == 1000 * (2 * screen.origin.y + screen.size.height)
            &&& frame.size.width >= screen.size.width ==> frame.x == 1000 * screen.origin.x
            &&& frame.size.height >= screen.size.height ==> frame.y == 1000 * screen.origin.y
        },
        rule.position is None ==> frame.x == 1000 * current.origin.x && frame.y == 1000
            * current.origin.y,
{
    if let Some(at) = rule.position {
        let w = room(screen.size.width as int, frame.size.width as int);
        let h = room(screen.size.height as int, frame.size.height as int);
        assert(w == 0 ==> w * at.x == 0) by (nonlinear_arith);
        assert(h == 0 ==> h * at.y == 0) by (nonlinear_arith);
    }
}

/// Across and down are placed alone: the share of the room to the left of a window is the rule's, in
/// thousandths, of all the room the window leaves.
pub proof fn a_position_is_a_share_of_the_room(
    rule: AppRulePlacement,
    current: Rect,
    screen: Rect,
    frame: ResolvedFrame,
)
    requires
        call_ensures(AppRulePlacement::resolve_frame, (rule, current, screen), frame),
        rule.position is Some,
        frame.size.width <= screen.size.width,
        frame.size.height <= screen.size.height,
    ensures
        frame.x - 1000 * screen.origin.x == (screen.size.width - frame.size.width)
            * rule.position->0.x,
        frame.y - 1000 * screen.origin.y == (screen.size.height - frame.size.height)
            * rule.position->0.y,
{
}

/// What a rule asks of a window reaches that window: a placement or a resize names the window, the
/// space and what the rule says, and a rule that names no size resizes nothing.
pub proof fn a_rule_reaches_its_window(
    effects: AppRuleEffects,
    window: WindowId,
    space: SpaceId,
    was_floating: bool,
    placement: Option<AppRulePlacement>,
    resize: Option<AppRuleResize>,
)
    requires
        call_ensures(AppRuleEffects::floating_placement, (effects, window, space), placement),
        call_ensures(AppRuleEffects::tiled_resize, (effects, window, space, was_floating), resize),
    ensures
        placement is None || resize is None,
        placement matches Some(p) ==> effects.floating && p.window == window && p.space == space
            && p.position == effects.position && p.size == effects.size,
        resize matches Some(r) ==> !effects.floating && r.window == window && r.space == space
            && r.workspace_id == effects.workspace_id && effects.size == Some(r.size),
        effects.floating && effects.size is Some ==> placement is Some,
        effects.floating && effects.position is Some ==> placement is Some,
        effects.position is None && effects.size is None ==> placement is None && resize is None,
        !effects.floating && effects.size is Some && !was_floating ==> resize is Some,
        !effects.floating && effects.size is Some && effects.prev_rule_decision ==> resize is Some,
        !effects.floating && !effects.prev_rule_decision && was_floating ==> resize is None,
{
}

/// What is asked for in a batch comes out in the order it was asked for, each in its own list, and the
/// focus asked for last is the one that counts.
pub proof fn what_is_asked_for_comes_out(
    outcome: &mut AppRuleOutcome,
    placement: AppRulePlacement,
    done: (),
    parts: (Vec<AppRulePlacement>, Vec<AppRuleResize>, Option<AppRuleWorkspaceFocus>),
    some: bool,
)
    requires
        call_ensures(AppRuleOutcome::push_placement, (outcome, placement), done),
        call_ensures(AppRuleOutcome::into_parts, (*final(outcome),), parts),
        call_ensures(AppRuleOutcome::has_resizes, (&*final(outcome),), some),
    ensures
        parts.0@.len() == old(outcome).placed().len() + 1,
        parts.0@.last() == placement,
        parts.0@.drop_last() == old(outcome).placed(),
        parts.1@ == old(outcome).resized(),
        parts.2 == old(outcome).focused(),
        some <==> parts.1@.len() > 0,
{
    assert(parts.0@.drop_last() =~= old(outcome).placed());
}

/// A resize asked for is the last of the resizes, and leaves the placements and the focus alone.
pub proof fn a_resize_asked_for_comes_out(
    outcome: &mut AppRuleOutcome,
    resize: AppRuleResize,
    done: (),
    parts: (Vec<AppRulePlacement>, Vec<AppRuleResize>, Option<AppRuleWorkspaceFocus>),
    some: bool,
)
    requires
        call_ensures(AppRuleOutcome::push_resize, (outcome, resize), done),
        call_ensures(AppRuleOutcome::into_parts, (*final(outcome),), parts),
        call_ensures(AppRuleOutcome::has_resizes, (&*final(outcome),), some),
    ensures
        parts.1@.last() == resize,
        parts.1@.drop_last() == old(outcome).resized(),
        parts.0@ == old(outcome).placed(),
        parts.2 == old(outcome).focused(),
        some,
{
    assert(parts.1@.drop_last() =~= old(outcome).resized());
}

/// The focus asked for last takes the place of one asked for before.
pub proof fn the_last_focus_counts(
    outcome: &mut AppRuleOutcome,
    focus: AppRuleWorkspaceFocus,
    done: (),
    parts: (Vec<AppRulePlacement>, Vec<AppRuleResize>, Option<AppRuleWorkspaceFocus>),
)
    requires
        call_ensures(AppRuleOutcome::set_workspace_focus, (outcome, focus), done),
        call_ensures(AppRuleOutcome::into_parts, (*final(outcome),), parts),
    ensures
        parts.2 == Some(focus),
        parts.0@ == old(outcome).placed(),
        parts.1@ == old(outcome).resized(),
{
}

} // verus!
