//! A flight as rigid pieces: groups of windows that ride one container each, and the windows that
//! fly on their own.
use vstd::prelude::*;

use crate::geometry::{Point, Rect};
use crate::ids::WindowId;
use crate::keyed::{find, first_at, listed, lookup, Keyed};

verus! {

/// The container a window rides in.
#[derive(Clone, Copy, PartialEq, Eq, Structural, Debug)]
pub enum GroupKey {
    /// One rigid piece of the strip; number zero stands still.
    Rigid(u16),
    /// Windows that change size or enter, each on its own.
    Loose,
    /// Windows off the strip.
    Floating,
}

/// One window of a rigid piece, at its place in the container.
#[derive(Clone, Copy, PartialEq, Eq, Structural, Debug)]
pub struct RigidMember {
    pub window: WindowId,
    pub rel: Rect,
}

impl Keyed for RigidMember {
    open spec fn key(&self) -> WindowId {
        self.window
    }

    fn key_of(&self) -> (r: WindowId) {
        self.window
    }
}

/// Windows that move by one vector.
pub struct RigidGroup {
    pub key: GroupKey,
    pub travel: Point,
    pub members: Vec<RigidMember>,
}

/// How a window takes part in a flight.
#[derive(Clone, Copy, PartialEq, Eq, Structural, Debug)]
pub enum Member {
    Rigid { key: GroupKey, rel: Rect },
    Changing { from: Rect, to: Rect },
    Entrance { from: Rect, to: Rect },
    Floating { from: Rect, to: Rect },
}

/// The flight as rigid pieces: what is composed on the overlay and animated.
pub struct FlightPlan {
    pub groups: Vec<RigidGroup>,
    /// Windows that change size, from and to.
    pub changing: Vec<(WindowId, Rect, Rect)>,
    /// Windows that enter, from and to.
    pub entrances: Vec<(WindowId, Rect, Rect)>,
    /// Windows off the strip, from and to inside their container.
    pub floating: Vec<(WindowId, Rect, Rect)>,
    pub floating_travel: Point,
    /// Where each container comes to stand.
    pub positions: Vec<(GroupKey, Point)>,
    /// The number the next new group takes.
    pub next_key: u16,
}

/// The group a rigid window rides in: the first that lists it, by place.
pub open spec fn group_at(groups: Seq<RigidGroup>, window: WindowId) -> int
    decreases groups.len(),
{
    if groups.len() == 0 {
        0
    } else if listed(groups[0].members@, window) {
        0
    } else {
        1 + group_at(groups.drop_first(), window)
    }
}

/// What [`group_at`] gives, from what stands at and before the place.
pub proof fn group_at_is(groups: Seq<RigidGroup>, window: WindowId, at: int)
    requires
        0 <= at <= groups.len(),
        forall|i: int| 0 <= i < at ==> !listed((#[trigger] groups[i]).members@, window),
        at < groups.len() ==> listed(groups[at].members@, window),
    ensures
        group_at(groups, window) == at,
    decreases groups.len(),
{
    if groups.len() > 0 && !listed(groups[0].members@, window) {
        assert(at > 0);
        let rest = groups.drop_first();
        assert forall|i: int| 0 <= i < at - 1 implies !listed(
            (#[trigger] rest[i]).members@,
            window,
        ) by {
            assert(rest[i] == groups[i + 1]);
        }
        if at < groups.len() {
            assert(rest[at - 1] == groups[at]);
        }
        group_at_is(rest, window, at - 1);
    }
}

/// Where the container `key` comes to stand; a container nobody placed stands at the origin.
pub open spec fn position_in(positions: Seq<(GroupKey, Point)>, key: GroupKey) -> Point
    decreases positions.len(),
{
    if positions.len() == 0 {
        Point { x: 0, y: 0 }
    } else if positions[0].0 == key {
        positions[0].1
    } else {
        position_in(positions.drop_first(), key)
    }
}

proof fn position_in_is(positions: Seq<(GroupKey, Point)>, key: GroupKey, at: int)
    requires
        0 <= at <= positions.len(),
        forall|i: int| 0 <= i < at ==> (#[trigger] positions[i]).0 != key,
        at < positions.len() ==> positions[at].0 == key,
    ensures
        position_in(positions, key) == (if at < positions.len() {
            positions[at].1
        } else {
            Point { x: 0, y: 0 }
        }),
    decreases positions.len(),
{
    if positions.len() > 0 && positions[0].0 != key {
        let rest = positions.drop_first();
        assert forall|i: int| 0 <= i < at - 1 implies (#[trigger] rest[i]).0 != key by {
            assert(rest[i] == positions[i + 1]);
        }
        if at < positions.len() {
            assert(rest[at - 1] == positions[at]);
        }
        position_in_is(rest, key, at - 1);
    }
}

/// A place in a container, seen in the overlay when the container stands at `position`.
pub open spec fn placed(rel: Rect, position: Point) -> Rect {
    rel.moved(position.x as int, position.y as int)
}

/// A place in a container, seen in the overlay when the container stands at `position`.
pub fn overlay_of(rel: Rect, position: Point) -> (r: Rect)
    requires
        rel.inside(64),
        position.inside(64),
    ensures
        r == placed(rel, position),
        r.inside(128),
{
    rel.translated(position)
}

/// A frame of the overlay, seen from a container that stands at `position`.
pub open spec fn relative(frame: Rect, position: Point) -> Rect {
    frame.moved(-position.x, -position.y)
}

/// A frame of the overlay, seen from a container that stands at `position`.
pub fn group_relative(frame: Rect, position: Point) -> (r: Rect)
    requires
        frame.inside(64),
        position.inside(64),
    ensures
        r == relative(frame, position),
        r.inside(128),
{
    frame.translated(Point { x: -position.x, y: -position.y })
}

/// Placing a frame relative to a container and looking at it from the overlay gives the frame back.
pub proof fn group_relative_and_overlay_of_are_inverses(frame: Rect, position: Point)
    requires
        frame.inside(64),
        position.inside(64),
    ensures
        placed(relative(frame, position), position) == frame,
        relative(placed(frame, position), position) == frame,
        relative(frame, position).size == frame.size,
        relative(frame, Point { x: 0, y: 0 }) == frame,
{
}

impl FlightPlan {
    /// Every place of the plan lies inside the limit.
    pub open spec fn inside_limit(&self) -> bool {
        &&& forall|i: int, j: int|
            0 <= i < self.groups.len() && 0 <= j < self.groups[i].members.len() ==> (
            #[trigger] self.groups[i].members[j]).rel.inside(64)
        &&& forall|i: int|
            0 <= i < self.floating.len() ==> (#[trigger] self.floating[i]).2.inside(64)
        &&& forall|i: int|
            0 <= i < self.positions.len() ==> (#[trigger] self.positions[i]).1.inside(64)
    }

    /// How `window` takes part: as a member of the first group that lists it, else as a changing
    /// window, an entrance or a floating one.
    pub open spec fn part_of(&self, window: WindowId) -> Option<Member> {
        let g = group_at(self.groups@, window);
        if g < self.groups.len() {
            let members = self.groups[g].members@;
            Some(
                Member::Rigid {
                    key: self.groups[g].key,
                    rel: members[first_at(members, window)].rel,
                },
            )
        } else if lookup(self.changing@, window) is Some {
            let entry = lookup(self.changing@, window)->0;
            Some(Member::Changing { from: entry.1, to: entry.2 })
        } else if lookup(self.entrances@, window) is Some {
            let entry = lookup(self.entrances@, window)->0;
            Some(Member::Entrance { from: entry.1, to: entry.2 })
        } else if lookup(self.floating@, window) is Some {
            let entry = lookup(self.floating@, window)->0;
            Some(Member::Floating { from: entry.1, to: entry.2 })
        } else {
            None
        }
    }

    /// Where `window` comes to stand in the overlay, whatever it rides.
    pub open spec fn destination(&self, window: WindowId) -> Option<Rect> {
        match self.part_of(window) {
            Some(Member::Rigid { key, rel }) => Some(
                placed(rel, position_in(self.positions@, key)),
            ),
            Some(Member::Changing { from, to }) => Some(to),
            Some(Member::Entrance { from, to }) => Some(to),
            Some(Member::Floating { from, to }) => Some(
                placed(to, position_in(self.positions@, GroupKey::Floating)),
            ),
            None => None,
        }
    }

    /// A plan with nothing in it: the still group alone, every container at the origin.
    pub fn empty() -> (r: FlightPlan)
        ensures
            r.groups@.len() == 0,
            r.changing@.len() == 0,
            r.entrances@.len() == 0,
            r.floating@.len() == 0,
            r.positions@.len() == 0,
            r.floating_travel == (Point { x: 0, y: 0 }),
            r.next_key == 1,
            r.inside_limit(),
    {
        FlightPlan {
            groups: Vec::new(),
            changing: Vec::new(),
            entrances: Vec::new(),
            floating: Vec::new(),
            floating_travel: Point { x: 0, y: 0 },
            positions: Vec::new(),
            next_key: 1,
        }
    }

    /// How `window` takes part in the flight, if it does.
    pub fn member(&self, window: WindowId) -> (r: Option<Member>)
        ensures
            r == self.part_of(window),
            self.inside_limit() ==> (r matches Some(Member::Rigid { key, rel }) ==> rel.inside(64)),
            self.inside_limit() ==> (r matches Some(Member::Floating { from, to }) ==> to.inside(64)),
    {
        let mut g: usize = 0;
        while g < self.groups.len()
            invariant
                g <= self.groups.len(),
                forall|i: int| 0 <= i < g ==> !listed((#[trigger] self.groups[i]).members@, window),
            decreases self.groups.len() - g,
        {
            if let Some(m) = find(&self.groups[g].members, window) {
                proof {
                    group_at_is(self.groups@, window, g as int);
                    assert(self.groups[g as int].members[m as int] == self.groups@[g as int].members@[
                        m as int
                    ]);
                }
                return Some(
                    Member::Rigid {
                        key: self.groups[g].key,
                        rel: self.groups[g].members[m].rel,
                    },
                );
            }
            g += 1;
        }
        proof {
            group_at_is(self.groups@, window, g as int);
        }
        if let Some(i) = find(&self.changing, window) {
            return Some(Member::Changing { from: self.changing[i].1, to: self.changing[i].2 });
        }
        if let Some(i) = find(&self.entrances, window) {
            return Some(Member::Entrance { from: self.entrances[i].1, to: self.entrances[i].2 });
        }
        if let Some(i) = find(&self.floating, window) {
            return Some(Member::Floating { from: self.floating[i].1, to: self.floating[i].2 });
        }
        None
    }

    /// Where the container `key` comes to stand.
    pub fn position_of(&self, key: GroupKey) -> (r: Point)
        ensures
            r == position_in(self.positions@, key),
            self.inside_limit() ==> r.inside(64),
    {
        let mut i: usize = 0;
        while i < self.positions.len()
            invariant
                i <= self.positions.len(),
                forall|j: int| 0 <= j < i ==> (#[trigger] self.positions[j]).0 != key,
            decreases self.positions.len() - i,
        {
            if self.positions[i].0 == key {
                proof {
                    position_in_is(self.positions@, key, i as int);
                    assert(self.positions[i as int] == self.positions@[i as int]);
                }
                return self.positions[i].1;
            }
            i += 1;
        }
        proof {
            position_in_is(self.positions@, key, i as int);
        }
        Point { x: 0, y: 0 }
    }

    /// Where `window` comes to stand in the overlay, if it takes part.
    pub fn destination_of(&self, window: WindowId) -> (r: Option<Rect>)
        requires
            self.inside_limit(),
        ensures
            r == self.destination(window),
    {
        match self.member(window) {
            Some(Member::Rigid { key, rel }) => Some(overlay_of(rel, self.position_of(key))),
            Some(Member::Changing { from: _, to }) => Some(to),
            Some(Member::Entrance { from: _, to }) => Some(to),
            Some(Member::Floating { from: _, to }) => Some(
                overlay_of(to, self.position_of(GroupKey::Floating)),
            ),
            None => None,
        }
    }
}

/// A container stands where its first entry says; one without an entry stands at the origin.
pub proof fn a_container_stands_where_it_was_put(
    positions: Seq<(GroupKey, Point)>,
    key: GroupKey,
    at: int,
)
    ensures
        (forall|i: int| 0 <= i < positions.len() ==> (#[trigger] positions[i]).0 != key)
            ==> position_in(positions, key).x == 0 && position_in(positions, key).y == 0,
        0 <= at < positions.len() && positions[at].0 == key && (forall|i: int|
            0 <= i < at ==> (#[trigger] positions[i]).0 != key) ==> position_in(positions, key)
            == positions[at].1,
{
    if forall|i: int| 0 <= i < positions.len() ==> (#[trigger] positions[i]).0 != key {
        position_in_is(positions, key, positions.len() as int);
    }
    if 0 <= at < positions.len() && positions[at].0 == key && (forall|i: int|
        0 <= i < at ==> (#[trigger] positions[i]).0 != key) {
        position_in_is(positions, key, at);
    }
}

/// A window of a rigid group takes part in that group, at its own place in it, and ends where the
/// group's container puts that place: as far from the container as it rides.
pub proof fn a_rigid_window_rides_its_container(plan: FlightPlan, window: WindowId, g: int, m: int)
    requires
        plan.inside_limit(),
        0 <= g < plan.groups@.len(),
        forall|i: int| 0 <= i < g ==> !listed((#[trigger] plan.groups@[i]).members@, window),
        0 <= m < plan.groups@[g].members@.len(),
        plan.groups@[g].members@[m].window == window,
        forall|i: int| 0 <= i < m ==> (#[trigger] plan.groups@[g].members@[i]).window != window,
    ensures
        plan.part_of(window) == Some(
            Member::Rigid { key: plan.groups@[g].key, rel: plan.groups@[g].members@[m].rel },
        ),
        ({
            let to = plan.destination(window);
            let rel = plan.groups@[g].members@[m].rel;
            let position = position_in(plan.positions@, plan.groups@[g].key);
            &&& to is Some
            &&& to->0.origin.x == rel.origin.x + position.x
            &&& to->0.origin.y == rel.origin.y + position.y
            &&& to->0.size == rel.size
        }),
{
    let members = plan.groups@[g].members@;
    assert(members[m].key() == window);
    assert(listed(members, window));
    group_at_is(plan.groups@, window, g);
    assert forall|i: int| 0 <= i < m implies #[trigger] members[i].key() != window by {
        assert(plan.groups@[g].members@[i].window != window);
    }
    crate::keyed::first_at_is(members, window, m);
    assert(plan.groups[g].members[m].rel.inside(64));
    position_is_inside(plan, plan.groups@[g].key, 0);
}

proof fn position_is_inside(plan: FlightPlan, key: GroupKey, from: int)
    requires
        plan.inside_limit(),
        0 <= from <= plan.positions@.len(),
    ensures
        position_in(plan.positions@.skip(from), key).inside(64),
        from == 0 ==> position_in(plan.positions@, key).inside(64),
    decreases plan.positions@.len() - from,
{
    let left = plan.positions@.skip(from);
    if from < plan.positions@.len() {
        position_is_inside(plan, key, from + 1);
        assert(left.drop_first() =~= plan.positions@.skip(from + 1));
        assert(plan.positions[from].1.inside(64));
    }
    assert(plan.positions@.skip(0) =~= plan.positions@);
}

/// A window in no rigid group that changes size or enters ends where its own entry says; a floating
/// one where its container puts it; any other takes no part and has no destination.
pub proof fn a_loose_window_ends_where_its_entry_says(plan: FlightPlan, window: WindowId)
    requires
        plan.inside_limit(),
        forall|i: int|
            0 <= i < plan.groups@.len() ==> !listed((#[trigger] plan.groups@[i]).members@, window),
    ensures
        lookup(plan.changing@, window) matches Some(entry) ==> plan.part_of(window) == Some(
            Member::Changing { from: entry.1, to: entry.2 },
        ) && plan.destination(window) == Some(entry.2),
        lookup(plan.changing@, window) is None ==> {
            &&& lookup(plan.entrances@, window) matches Some(entry) ==> plan.part_of(window) == Some(
                Member::Entrance { from: entry.1, to: entry.2 },
            ) && plan.destination(window) == Some(entry.2)
            &&& lookup(plan.entrances@, window) is None ==> {
                &&& lookup(plan.floating@, window) matches Some(entry) ==> {
                    let position = position_in(plan.positions@, GroupKey::Floating);
                    let to = plan.destination(window);
                    &&& plan.part_of(window) == Some(
                        Member::Floating { from: entry.1, to: entry.2 },
                    )
                    &&& to is Some
                    &&& to->0.origin.x == entry.2.origin.x + position.x
                    &&& to->0.origin.y == entry.2.origin.y + position.y
                    &&& to->0.size == entry.2.size
                }
                &&& lookup(plan.floating@, window) is None ==> plan.part_of(window) is None
                    && plan.destination(window) is None
            }
        },
{
    group_at_is(plan.groups@, window, plan.groups@.len() as int);
    position_is_inside(plan, GroupKey::Floating, 0);
    crate::keyed::first_at_finds(plan.floating@, window);
    if listed(plan.floating@, window) {
        assert(plan.floating[first_at(plan.floating@, window)].2.inside(64));
    }
}

/// A frame seen from a container is as far from it as the two stand apart on the overlay.
pub proof fn a_frame_is_seen_from_its_container(frame: Rect, position: Point)
    requires
        frame.inside(64),
        position.inside(64),
    ensures
        relative(frame, position).origin.x == frame.origin.x - position.x,
        relative(frame, position).origin.y == frame.origin.y - position.y,
        placed(frame, position).origin.x == frame.origin.x + position.x,
        placed(frame, position).origin.y == frame.origin.y + position.y,
        placed(frame, position).size == frame.size,
{
}

/// An empty plan moves nothing: no window takes part, and the first group made takes number one.
pub proof fn an_empty_plan_moves_nothing(plan: FlightPlan, window: WindowId, key: GroupKey)
    requires
        call_ensures(FlightPlan::empty, (), plan),
    ensures
        plan.part_of(window) is None,
        plan.destination(window) is None,
        position_in(plan.positions@, key).x == 0 && position_in(plan.positions@, key).y == 0,
        plan.floating_travel.x == 0 && plan.floating_travel.y == 0,
        plan.next_key == 1,
{
}

/// A frame put into a container and looked at from the overlay is where it was.
pub proof fn a_frame_put_into_a_container_stays(
    frame: Rect,
    position: Point,
    rel: Rect,
)
    requires
        frame.inside(64),
        position.inside(64),
        call_ensures(group_relative, (frame, position), rel),
    ensures
        rel.origin.x + position.x == frame.origin.x,
        rel.origin.y + position.y == frame.origin.y,
        rel.size == frame.size,
{
}

} // verus!
