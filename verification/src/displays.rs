//! Displays and native spaces as the application sees them: the topology it is handed, and Mission
//! Control as the Dock announces it.
use vstd::prelude::*;

use crate::geometry::{Rect, Size};
use crate::ids::{ScreenId, SpaceId, WindowServerId};
use crate::text::same_text;

verus! {

#[derive(Clone, Copy, Debug, PartialEq, Eq, Structural)]
pub enum SpaceEventKind {
    User,
    Fullscreen,
}

#[derive(Clone, Copy, Debug, PartialEq, Eq, Structural)]
pub struct QuarantineStats {
    pub appeared_dropped: u64,
    pub destroyed_dropped: u64,
}

impl Default for QuarantineStats {
    fn default() -> (stats: Self)
        ensures
            stats == (QuarantineStats { appeared_dropped: 0, destroyed_dropped: 0 }),
    {
        QuarantineStats { appeared_dropped: 0, destroyed_dropped: 0 }
    }
}

/// A screen and the space it shows.
#[derive(Debug)]
pub struct ScreenInfo {
    pub id: ScreenId,
    pub frame: Rect,
    pub display_uuid: Option<String>,
    pub space: Option<SpaceId>,
}

/// Windows that came to and went from active spaces in one change of topology.
#[derive(Debug)]
pub struct TopologyWindowDelta {
    pub epoch: u64,
    /// The flags of the display reconfiguration, bit by bit.
    pub flags: u32,
    pub appeared: Vec<(WindowServerId, SpaceId)>,
    pub disappeared: Vec<(WindowServerId, SpaceId)>,
}

impl Default for TopologyWindowDelta {
    fn default() -> (delta: Self)
        ensures
            delta.epoch == 0,
            delta.flags == 0,
            delta.appeared@.len() == 0,
            delta.disappeared@.len() == 0,
    {
        TopologyWindowDelta { epoch: 0, flags: 0, appeared: Vec::new(), disappeared: Vec::new() }
    }
}

/// Forwarded read-only space and display snapshot.
#[derive(Debug)]
pub struct ForwardedSpaceState {
    pub screens: Vec<ScreenInfo>,
    pub fullscreen_spaces: Vec<SpaceId>,
    pub has_seen_display_set: bool,
    pub active_spaces: Vec<SpaceId>,
    pub menu_bar_space: Option<SpaceId>,
    pub command_space: Option<SpaceId>,
    pub display_space_ids: Vec<(String, Vec<SpaceId>)>,
    pub last_user_space_by_display: Vec<(String, SpaceId)>,
    pub space_remaps: Vec<(SpaceId, SpaceId)>,
    pub display_set_changed: bool,
    pub topology_changed: bool,
    pub allow_space_remap: bool,
    pub should_force_refresh_layout: bool,
    pub releases_lifecycle_refresh_quarantine: bool,
    /// Releases the display-churn gate only after this authoritative snapshot has been incorporated
    /// into the workspace model.
    pub releases_display_churn_refresh_quarantine: bool,
    pub resized_spaces: Vec<(SpaceId, Size)>,
    pub topology_window_delta: Option<TopologyWindowDelta>,
    pub active_window_spaces: Vec<(WindowServerId, SpaceId)>,
}

/// The spaces the screens show, in the order of the screens.
pub open spec fn known_spaces(screens: Seq<ScreenInfo>) -> Seq<SpaceId>
    decreases screens.len(),
{
    if screens.len() == 0 {
        Seq::empty()
    } else {
        let before = known_spaces(screens.drop_last());
        match screens.last().space {
            Some(space) => before.push(space),
            None => before,
        }
    }
}

impl ForwardedSpaceState {
    /// The first screen that shows this space.
    pub fn screen_by_space(&self, space: SpaceId) -> (screen: Option<&ScreenInfo>)
        ensures
            screen matches Some(found) ==> exists|i: int|
                0 <= i < self.screens@.len() && *found == #[trigger] self.screens@[i]
                    && self.screens@[i].space == Some(space) && forall|j: int|
                    0 <= j < i ==> (#[trigger] self.screens@[j]).space != Some(space),
            screen is None ==> forall|i: int|
                0 <= i < self.screens@.len() ==> (#[trigger] self.screens@[i]).space != Some(space),
    {
        let mut i: usize = 0;
        while i < self.screens.len()
            invariant
                i <= self.screens@.len(),
                forall|j: int| 0 <= j < i ==> (#[trigger] self.screens@[j]).space != Some(space),
            decreases self.screens@.len() - i,
        {
            if let Some(shown) = self.screens[i].space {
                if shown == space {
                    return Some(&self.screens[i]);
                }
            }
            i += 1;
        }
        None
    }

    /// The spaces the screens show.
    pub fn iter_known_spaces(&self) -> (spaces: Vec<SpaceId>)
        ensures
            spaces@ == known_spaces(self.screens@),
    {
        let mut spaces: Vec<SpaceId> = Vec::new();
        let mut i: usize = 0;
        while i < self.screens.len()
            invariant
                i <= self.screens@.len(),
                spaces@ == known_spaces(self.screens@.take(i as int)),
            decreases self.screens@.len() - i,
        {
            assert(self.screens@.take(i + 1).drop_last() == self.screens@.take(i as int));
            if let Some(space) = self.screens[i].space {
                spaces.push(space);
            }
            i += 1;
        }
        assert(self.screens@.take(self.screens@.len() as int) == self.screens@);
        spaces
    }

    /// The first of them.
    pub fn first_known_space(&self) -> (space: Option<SpaceId>)
        ensures
            space == if known_spaces(self.screens@).len() == 0 {
                None
            } else {
                Some(known_spaces(self.screens@)[0])
            },
    {
        let spaces = self.iter_known_spaces();
        if spaces.len() == 0 {
            None
        } else {
            Some(spaces[0])
        }
    }
}

impl Default for ForwardedSpaceState {
    fn default() -> (state: Self)
        ensures
            state.screens@.len() == 0,
            state.fullscreen_spaces@.len() == 0,
            state.active_spaces@.len() == 0,
            state.display_space_ids@.len() == 0,
            state.last_user_space_by_display@.len() == 0,
            state.space_remaps@.len() == 0,
            state.resized_spaces@.len() == 0,
            state.active_window_spaces@.len() == 0,
            state.menu_bar_space is None,
            state.command_space is None,
            state.topology_window_delta is None,
            !state.has_seen_display_set,
            !state.display_set_changed,
            !state.topology_changed,
            !state.allow_space_remap,
            !state.should_force_refresh_layout,
            !state.releases_lifecycle_refresh_quarantine,
            !state.releases_display_churn_refresh_quarantine,
    {
        ForwardedSpaceState {
            screens: Vec::new(),
            fullscreen_spaces: Vec::new(),
            has_seen_display_set: false,
            active_spaces: Vec::new(),
            menu_bar_space: None,
            command_space: None,
            display_space_ids: Vec::new(),
            last_user_space_by_display: Vec::new(),
            space_remaps: Vec::new(),
            display_set_changed: false,
            topology_changed: false,
            allow_space_remap: false,
            should_force_refresh_layout: false,
            releases_lifecycle_refresh_quarantine: false,
            releases_display_churn_refresh_quarantine: false,
            resized_spaces: Vec::new(),
            topology_window_delta: None,
            active_window_spaces: Vec::new(),
        }
    }
}

/// A space is known exactly when some screen shows it.
pub proof fn a_space_is_known_when_a_screen_shows_it(screens: Seq<ScreenInfo>, space: SpaceId)
    ensures
        known_spaces(screens).contains(space) <==> exists|i: int|
            0 <= i < screens.len() && (#[trigger] screens[i]).space == Some(space),
    decreases screens.len(),
{
    if screens.len() > 0 {
        let rest = screens.drop_last();
        let known = known_spaces(screens);
        a_space_is_known_when_a_screen_shows_it(rest, space);
        if known.contains(space) {
            let k = choose|k: int| 0 <= k < known.len() && known[k] == space;
            if k < known_spaces(rest).len() {
                assert(known_spaces(rest)[k] == space);
                let i = choose|i: int|
                    0 <= i < rest.len() && (#[trigger] rest[i]).space == Some(space);
                assert(screens[i].space == Some(space));
            } else {
                assert(screens[screens.len() - 1].space == Some(space));
            }
        }
        if exists|i: int| 0 <= i < screens.len() && (#[trigger] screens[i]).space == Some(space) {
            let i = choose|i: int|
                0 <= i < screens.len() && (#[trigger] screens[i]).space == Some(space);
            if i < rest.len() {
                assert(rest[i].space == Some(space));
                let k = choose|k: int|
                    0 <= k < known_spaces(rest).len() && known_spaces(rest)[k] == space;
                assert(known[k] == space);
            } else {
                assert(known[known.len() - 1] == space);
            }
        }
    }
}

/// What the displays tell the application.
#[derive(Debug)]
pub enum Event {
    /// The authoritative screens and spaces snapshot, with the height of the primary display.
    SpaceStateUpdated(ForwardedSpaceState, i64),
    ActiveDisplayChanged { menu_bar_space: Option<SpaceId>, command_space: Option<SpaceId> },
    SpaceCreated(SpaceId),
    SpaceDestroyed(SpaceId),
    WindowServerAppeared(WindowServerId, SpaceId, SpaceEventKind),
    WindowServerDestroyed(WindowServerId, SpaceId, SpaceEventKind),
    SystemWillSleep,
    SystemWoke,
    SessionDidResignActive,
    SessionDidBecomeActive,
    DisplayChurnBegin,
    MissionControlEntered,
    MissionControlExited,
}

/// Whether a space of this type is an ordinary one.
pub fn space_is_user(space_type: i32) -> (user: bool)
    ensures
        user == (space_type == 0),
{
    space_type == 0
}

/// Whether a space of this type belongs to one fullscreen window.
pub fn space_is_fullscreen(space_type: i32) -> (fullscreen: bool)
    ensures
        fullscreen == (space_type == 4),
{
    space_type == 4
}

/// Mission Control, as last announced.
#[derive(Clone, Copy, Debug, PartialEq, Eq, Structural)]
pub struct MissionControl {
    pub active: bool,
    pub observed: bool,
}

/// Whether Mission Control came up or went away.
#[derive(Clone, Copy, Debug, PartialEq, Eq, Structural)]
pub enum MissionControlChange {
    Entered,
    Exited,
}

/// The Dock's announcements: one for leaving, three for showing something.
pub open spec fn announced(notification: Seq<char>) -> Option<MissionControlChange> {
    if notification == "AXExposeShowAllWindows"@ || notification == "AXExposeShowFrontWindows"@
        || notification == "AXExposeShowDesktop"@ {
        Some(MissionControlChange::Entered)
    } else if notification == "AXExposeExit"@ {
        Some(MissionControlChange::Exited)
    } else {
        None
    }
}

/// The announcements to observe.
pub fn notifications() -> (names: Vec<&'static str>)
    ensures
        names@.len() == 4,
        names@[0]@ == "AXExposeExit"@,
        names@[1]@ == "AXExposeShowAllWindows"@,
        names@[2]@ == "AXExposeShowFrontWindows"@,
        names@[3]@ == "AXExposeShowDesktop"@,
        forall|i: int| 0 <= i < names@.len() ==> announced((#[trigger] names@[i])@) is Some,
{
    let mut names: Vec<&'static str> = Vec::new();
    names.push("AXExposeExit");
    names.push("AXExposeShowAllWindows");
    names.push("AXExposeShowFrontWindows");
    names.push("AXExposeShowDesktop");
    names
}

impl MissionControl {
    /// Not up, and not observed yet.
    pub fn new() -> (state: Self)
        ensures
            state == (MissionControl { active: false, observed: false }),
    {
        MissionControl { active: false, observed: false }
    }

    /// The Dock's process to observe: there has to be exactly one. Nothing is done for a Dock that
    /// is observed already.
    pub fn observe(&self, docks: &Vec<i32>) -> (pid: Option<i32>)
        ensures
            pid == if !self.observed && docks@.len() == 1 {
                Some(docks@[0])
            } else {
                None
            },
    {
        if self.observed {
            return None;
        }
        find_dock_pid(docks)
    }

    /// Takes an announcement; what is not one of the Dock's changes nothing.
    pub fn handle_notification(&mut self, notification: &str) -> (change: Option<
        MissionControlChange,
    >)
        ensures
            change == announced(notification@),
            final(self).observed == old(self).observed,
            final(self).active == match announced(notification@) {
                Some(MissionControlChange::Entered) => true,
                Some(MissionControlChange::Exited) => false,
                None => old(self).active,
            },
    {
        if same_text(notification, "AXExposeShowAllWindows") || same_text(
            notification,
            "AXExposeShowFrontWindows",
        ) || same_text(notification, "AXExposeShowDesktop") {
            self.active = true;
            Some(MissionControlChange::Entered)
        } else if same_text(notification, "AXExposeExit") {
            self.active = false;
            Some(MissionControlChange::Exited)
        } else {
            None
        }
    }
}

/// The one Dock there is; none when there is no Dock or more than one.
pub fn find_dock_pid(docks: &Vec<i32>) -> (pid: Option<i32>)
    ensures
        pid == if docks@.len() == 1 {
            Some(docks@[0])
        } else {
            None
        },
{
    if docks.len() == 1 {
        Some(docks[0])
    } else {
        None
    }
}

/// The screen found for a space shows it, and is the first that does; its space is the one known
/// first where it is the first screen with any.
pub proof fn the_first_screen_that_shows_a_space_is_found(
    state: ForwardedSpaceState,
    space: SpaceId,
    found: Option<&ScreenInfo>,
    known: Vec<SpaceId>,
    first: Option<SpaceId>,
)
    requires
        call_ensures(ForwardedSpaceState::screen_by_space, (&state, space), found),
        call_ensures(ForwardedSpaceState::iter_known_spaces, (&state,), known),
        call_ensures(ForwardedSpaceState::first_known_space, (&state,), first),
    ensures
        found is Some <==> known@.contains(space),
        found matches Some(screen) ==> screen.space == Some(space),
        first is Some <==> known@.len() > 0,
        first matches Some(one) ==> known@[0] == one,
        known@.len() <= state.screens@.len(),
{
    a_space_is_known_when_a_screen_shows_it(state.screens@, space);
    spaces_are_known_in_order(state.screens@, Seq::empty());
}

/// Spaces are known in the order of the screens, one for each screen that shows one.
pub proof fn spaces_are_known_in_order(screens: Seq<ScreenInfo>, more: Seq<ScreenInfo>)
    ensures
        known_spaces(screens + more) == known_spaces(screens) + known_spaces(more),
        known_spaces(screens).len() <= screens.len(),
        (forall|i: int| 0 <= i < screens.len() ==> (#[trigger] screens[i]).space is Some)
            ==> known_spaces(screens).len() == screens.len(),
    decreases screens.len() + more.len(),
{
    if more.len() == 0 {
        assert(screens + more =~= screens);
        assert(known_spaces(screens) + known_spaces(more) =~= known_spaces(screens));
    } else {
        spaces_are_known_in_order(screens, more.drop_last());
        assert((screens + more).drop_last() =~= screens + more.drop_last());
        assert((screens + more).last() == more.last());
        assert(known_spaces(screens + more) =~= known_spaces(screens) + known_spaces(more));
    }
    if screens.len() > 0 {
        let rest = screens.drop_last();
        spaces_are_known_in_order(rest, Seq::empty());
        if forall|i: int| 0 <= i < screens.len() ==> (#[trigger] screens[i]).space is Some {
            assert forall|i: int| 0 <= i < rest.len() implies (#[trigger] rest[i]).space is Some by {
                assert(rest[i] == screens[i]);
            }
            assert(screens[screens.len() - 1].space is Some);
        }
    }
}

/// No type of space is both an ordinary one and a fullscreen one: the first is type zero, the second
/// type four.
pub proof fn a_space_is_of_one_kind(space_type: i32, user: bool, fullscreen: bool)
    requires
        call_ensures(space_is_user, (space_type,), user),
        call_ensures(space_is_fullscreen, (space_type,), fullscreen),
    ensures
        !(user && fullscreen),
        user <==> space_type == 0,
        fullscreen <==> space_type == 4,
{
}

/// What the Dock announces: one name says that Mission Control went away, three that it came up, and
/// no other says anything. Exactly these are observed.
pub proof fn the_dock_announces_mission_control(text: Seq<char>, names: Vec<&'static str>)
    requires
        call_ensures(notifications, (), names),
    ensures
        announced(text) == Some(MissionControlChange::Exited) <==> text == "AXExposeExit"@,
        announced(text) == Some(MissionControlChange::Entered) <==> text
            == "AXExposeShowAllWindows"@ || text == "AXExposeShowFrontWindows"@ || text
            == "AXExposeShowDesktop"@,
        announced(text) is Some <==> exists|i: int|
            0 <= i < names@.len() && (#[trigger] names@[i])@ == text,
{
    reveal_strlit("AXExposeExit");
    reveal_strlit("AXExposeShowAllWindows");
    reveal_strlit("AXExposeShowFrontWindows");
    reveal_strlit("AXExposeShowDesktop");
    assert("AXExposeExit"@.len() == 12);
    assert("AXExposeShowAllWindows"@.len() == 22);
    assert("AXExposeShowFrontWindows"@.len() == 24);
    assert("AXExposeShowDesktop"@.len() == 19);
    assert(names@[0]@ == "AXExposeExit"@);
    assert(names@[1]@ == "AXExposeShowAllWindows"@);
    assert(names@[2]@ == "AXExposeShowFrontWindows"@);
    assert(names@[3]@ == "AXExposeShowDesktop"@);
}

/// Mission Control is up after it came up and down after it went away; anything else the Dock says
/// leaves it as it was.
pub proof fn mission_control_is_as_last_announced(
    state: &mut MissionControl,
    notification: &str,
    change: Option<MissionControlChange>,
)
    requires
        call_ensures(MissionControl::handle_notification, (state, notification), change),
    ensures
        notification@ == "AXExposeExit"@ ==> !final(state).active && change == Some(
            MissionControlChange::Exited,
        ),
        notification@ == "AXExposeShowAllWindows"@ || notification@ == "AXExposeShowFrontWindows"@
            || notification@ == "AXExposeShowDesktop"@ ==> final(state).active && change == Some(
            MissionControlChange::Entered,
        ),
        change is None ==> *final(state) == *old(state),
        change == Some(MissionControlChange::Entered) ==> final(state).active,
        change == Some(MissionControlChange::Exited) ==> !final(state).active,
        final(state).observed == old(state).observed,
{
    reveal_strlit("AXExposeExit");
    reveal_strlit("AXExposeShowAllWindows");
    reveal_strlit("AXExposeShowFrontWindows");
    reveal_strlit("AXExposeShowDesktop");
    assert("AXExposeExit"@.len() == 12);
    assert("AXExposeShowAllWindows"@.len() == 22);
    assert("AXExposeShowFrontWindows"@.len() == 24);
    assert("AXExposeShowDesktop"@.len() == 19);
}

/// The Dock observed is the only one there is, and it is observed once.
pub proof fn the_only_dock_is_observed_once(
    state: MissionControl,
    docks: Vec<i32>,
    pid: Option<i32>,
    found: Option<i32>,
    fresh: MissionControl,
)
    requires
        call_ensures(MissionControl::observe, (&state, &docks), pid),
        call_ensures(find_dock_pid, (&docks,), found),
        call_ensures(MissionControl::new, (), fresh),
    ensures
        found is Some <==> docks@.len() == 1,
        found matches Some(dock) ==> docks@[0] == dock,
        state.observed ==> pid is None,
        !state.observed ==> pid == found,
        !fresh.active && !fresh.observed,
{
}

/// Of several screens that show a space the first is the one found.
pub proof fn no_earlier_screen_shows_the_space(
    state: ForwardedSpaceState,
    space: SpaceId,
    found: Option<&ScreenInfo>,
    i: int,
)
    requires
        call_ensures(ForwardedSpaceState::screen_by_space, (&state, space), found),
        0 <= i < state.screens@.len(),
        state.screens@[i].space == Some(space),
        forall|j: int| 0 <= j < i ==> (#[trigger] state.screens@[j]).space != Some(space),
    ensures
        found matches Some(screen) && *screen == state.screens@[i],
{
    assert(state.screens@[i].space == Some(space));
    if found is Some {
        let k = choose|k: int|
            0 <= k < state.screens@.len() && *(found->0) == #[trigger] state.screens@[k]
                && state.screens@[k].space == Some(space) && forall|j: int|
                0 <= j < k ==> (#[trigger] state.screens@[j]).space != Some(space);
        if k < i {
            assert(state.screens@[k].space != Some(space));
        } else if i < k {
            assert(state.screens@[i].space != Some(space));
        }
    }
}

} // verus!
