//! The stacking order of a flight: two groups of windows, the one that holds the focus in front, each
//! window at its place within.
use vstd::prelude::*;

use crate::flight::plan::{FlightPlan, GroupKey, RigidGroup, RigidMember};
use crate::geometry::Rect;
use crate::ids::WindowId;
use crate::keyed::{
    find, first_at, first_at_finds, get, listed, lookup, one_each, upsert, upserted,
    upserting_keeps_one_each, Keyed,
};
use crate::snapshot::WindowSnapshot;
use crate::surface::TileGeometry;

verus! {

/// How many places one group's band has.
pub const GROUP_STRIDE: usize = 10_000;

/// The last place of the last band: anything behind it is the backdrop.
pub const MAX_TILE_DEPTH: usize = 19_999;

/// One window's tile on the overlay.
#[derive(Clone, Copy, PartialEq, Eq, Debug)]
pub struct OverlayTile {
    pub window: WindowId,
    /// Where it starts, in overlay coordinates.
    pub from: Rect,
    /// Where it ends, in overlay coordinates.
    pub to: Rect,
    pub snapshot: WindowSnapshot,
    /// Off the strip, and so in the other group.
    pub floating: bool,
    /// The window server's own order, front to back, where it is known.
    pub server_order: Option<usize>,
    /// Its place in the flight, front to back.
    pub depth: usize,
    /// A border window that rides with the window it traces.
    pub companion: bool,
    pub focused: bool,
}

impl TileGeometry for OverlayTile {
    open spec fn shows(&self) -> WindowId {
        self.window
    }

    open spec fn starts(&self) -> Rect {
        self.from
    }

    open spec fn ends(&self) -> Rect {
        self.to
    }

    open spec fn floats(&self) -> bool {
        self.floating
    }

    open spec fn accompanies(&self) -> bool {
        self.companion
    }

    fn window(&self) -> (r: WindowId) {
        self.window
    }

    fn from(&self) -> (r: Rect) {
        self.from
    }

    fn to(&self) -> (r: Rect) {
        self.to
    }

    fn floating(&self) -> (r: bool) {
        self.floating
    }

    fn companion(&self) -> (r: bool) {
        self.companion
    }
}

impl Keyed for OverlayTile {
    open spec fn key(&self) -> WindowId {
        self.window
    }

    fn key_of(&self) -> (r: WindowId) {
        self.window
    }
}

/// The two groups of the stacking order.
#[derive(Clone, Copy, PartialEq, Eq, Structural, Debug)]
pub enum StackGroup {
    Tiled,
    Floating,
}

/// Which group a window belongs to.
pub open spec fn group_for(floating: bool) -> StackGroup {
    if floating {
        StackGroup::Floating
    } else {
        StackGroup::Tiled
    }
}

/// Which group a window belongs to.
pub fn group_of(floating: bool) -> (r: StackGroup)
    ensures
        r == group_for(floating),
{
    if floating {
        StackGroup::Floating
    } else {
        StackGroup::Tiled
    }
}

/// A window's place within its group's band: the focused one leads, the others keep the server's
/// order behind it, and one the server did not list comes last. The server's order is untrusted, so
/// it never leaves the band.
pub open spec fn depth_within(server_order: Option<usize>, focused: bool) -> int {
    if focused {
        0
    } else {
        match server_order {
            Some(order) => if order + 1 < GROUP_STRIDE {
                order + 1
            } else {
                GROUP_STRIDE - 1
            },
            None => GROUP_STRIDE - 1,
        }
    }
}

/// Where a group's band begins: the focused group's in front of the other's.
pub open spec fn band_of(group: StackGroup, focused_group: StackGroup) -> int {
    if group == focused_group {
        0
    } else {
        GROUP_STRIDE as int
    }
}

/// A tile's place in the flight, front to back.
pub fn tile_depth(
    server_order: Option<usize>,
    focused: bool,
    group: StackGroup,
    focused_group: StackGroup,
) -> (r: usize)
    ensures
        r == band_of(group, focused_group) + depth_within(server_order, focused),
        r <= MAX_TILE_DEPTH,
{
    let within: usize = if focused {
        0
    } else {
        match server_order {
            Some(order) => if order < GROUP_STRIDE - 1 {
                order + 1
            } else {
                GROUP_STRIDE - 1
            },
            None => GROUP_STRIDE - 1,
        }
    };
    if group == focused_group {
        within
    } else {
        GROUP_STRIDE + within
    }
}

/// The group drawn in front: the focus target's, or the strip when it is not being animated.
pub open spec fn front_group(focus: Option<WindowId>, tiles: Seq<OverlayTile>) -> StackGroup {
    match focus {
        Some(window) => match lookup(tiles, window) {
            Some(tile) => group_for(tile.floating),
            None => StackGroup::Tiled,
        },
        None => StackGroup::Tiled,
    }
}

/// The group drawn in front: the focus target's, or the strip when it is not being animated.
pub fn focus_group(focus: Option<WindowId>, tiles: &Vec<OverlayTile>) -> (r: StackGroup)
    ensures
        r == front_group(focus, tiles@),
{
    match focus {
        Some(window) => match find(tiles, window) {
            Some(i) => group_of(tiles[i].floating),
            None => StackGroup::Tiled,
        },
        None => StackGroup::Tiled,
    }
}

/// The tile at its place: companions keep the depth of the window they trace.
pub open spec fn stacked(
    tile: OverlayTile,
    focus: Option<WindowId>,
    focused_group: StackGroup,
) -> OverlayTile {
    if tile.companion {
        tile
    } else {
        OverlayTile {
            depth: (band_of(group_for(tile.floating), focused_group) + depth_within(
                tile.server_order,
                focus == Some(tile.window),
            )) as usize,
            ..tile
        }
    }
}

/// Every tile at its place.
pub open spec fn restacked(tiles: Seq<OverlayTile>, focus: Option<WindowId>) -> Seq<OverlayTile> {
    tiles.map_values(|t: OverlayTile| stacked(t, focus, front_group(focus, tiles)))
}

/// Whether `focus` is `window`.
pub fn is_focus(focus: Option<WindowId>, window: WindowId) -> (r: bool)
    ensures
        r == (focus == Some(window)),
{
    match focus {
        Some(focused) => focused == window,
        None => false,
    }
}

/// Depth for every tile, banded by group; companions keep their window's depth.
pub fn restack(tiles: &mut Vec<OverlayTile>, focus: Option<WindowId>)
    ensures
        final(tiles)@ == restacked(old(tiles)@, focus),
{
    let ghost before = tiles@;
    let focused_group: StackGroup = focus_group(focus, tiles);
    let mut i: usize = 0;
    while i < tiles.len()
        invariant
            i <= tiles.len(),
            tiles.len() == before.len(),
            focused_group == front_group(focus, before),
            forall|j: int|
                0 <= j < i ==> #[trigger] tiles[j] == stacked(before[j], focus, focused_group),
            forall|j: int| i <= j < before.len() ==> #[trigger] tiles[j] == before[j],
        decreases tiles.len() - i,
    {
        let mut tile: OverlayTile = tiles[i];
        assert(tile == before[i as int]);
        if !tile.companion {
            tile.depth = tile_depth(
                tile.server_order,
                is_focus(focus, tile.window),
                group_of(tile.floating),
                focused_group,
            );
            tiles.set(i, tile);
        }
        i += 1;
    }
    assert(tiles@ =~= restacked(before, focus));
}

/// Writes every tile's destination back from the merged plan: a member the pass did not compose
/// rides its group all the same.
pub open spec fn synced(tile: OverlayTile, plan: FlightPlan) -> OverlayTile {
    match plan.destination(tile.window) {
        Some(to) => OverlayTile { to, ..tile },
        None => tile,
    }
}

/// Writes every tile's destination back from the merged plan.
pub fn sync_tiles_to_plan(tiles: &mut Vec<OverlayTile>, plan: &FlightPlan)
    requires
        plan.inside_limit(),
    ensures
        final(tiles)@ == old(tiles)@.map_values(|t: OverlayTile| synced(t, *plan)),
{
    let ghost before = tiles@;
    let mut i: usize = 0;
    while i < tiles.len()
        invariant
            i <= tiles.len(),
            tiles.len() == before.len(),
            plan.inside_limit(),
            forall|j: int| 0 <= j < i ==> #[trigger] tiles[j] == synced(before[j], *plan),
            forall|j: int| i <= j < before.len() ==> #[trigger] tiles[j] == before[j],
        decreases tiles.len() - i,
    {
        let mut tile: OverlayTile = tiles[i];
        assert(tile == before[i as int]);
        if let Some(to) = plan.destination_of(tile.window) {
            tile.to = to;
            tiles.set(i, tile);
        }
        i += 1;
    }
    assert(tiles@ =~= before.map_values(|t: OverlayTile| synced(t, *plan)));
}

/// The focused group is never behind the other: every tile of the one is in front of every tile of
/// the other, and the focused window leads them all.
pub proof fn the_focused_group_is_in_front(
    tiles: Seq<OverlayTile>,
    focus: Option<WindowId>,
    i: int,
    j: int,
)
    requires
        0 <= i < tiles.len(),
        0 <= j < tiles.len(),
        !tiles[i].companion,
        !tiles[j].companion,
        group_for(tiles[i].floating) == front_group(focus, tiles),
        group_for(tiles[j].floating) != front_group(focus, tiles),
    ensures
        restacked(tiles, focus)[i].depth < restacked(tiles, focus)[j].depth,
        restacked(tiles, focus)[j].depth <= MAX_TILE_DEPTH,
        focus == Some(tiles[i].window) ==> restacked(tiles, focus)[i].depth == 0,
{
}

proof fn restacking_keeps_the_front(tiles: Seq<OverlayTile>, focus: Option<WindowId>)
    ensures
        front_group(focus, restacked(tiles, focus)) == front_group(focus, tiles),
{
    let once = restacked(tiles, focus);
    if let Some(window) = focus {
        first_at_finds(tiles, window);
        first_at_finds(once, window);
        let p = first_at(tiles, window);
        assert forall|k: int| 0 <= k < p implies #[trigger] once[k].key() != window by {
            assert(tiles[k].key() != window);
        }
        if p < tiles.len() {
            assert(once[p].key() == window);
            assert(listed(once, window));
        } else {
            assert forall|k: int| 0 <= k < once.len() implies #[trigger] once[k].key()
                != window by {
                assert(tiles[k].key() != window);
            }
        }
        crate::keyed::first_at_is(once, window, p);
    }
}

/// Putting tiles at their places twice is putting them there once.
pub proof fn restacking_is_idempotent(tiles: Seq<OverlayTile>, focus: Option<WindowId>)
    ensures
        restacked(restacked(tiles, focus), focus) == restacked(tiles, focus),
{
    let once = restacked(tiles, focus);
    restacking_keeps_the_front(tiles, focus);
    assert(restacked(once, focus) =~= once);
}

/// What a container of the strip is ordered by: the one that holds the focus first, then by its
/// frontmost window.
#[derive(Clone, Copy, PartialEq, Eq, Structural, Debug)]
pub struct StripRank {
    pub key: GroupKey,
    pub holds_focus: bool,
    pub shallowest: usize,
}

/// `a` may stand before `b`.
pub open spec fn in_order(a: StripRank, b: StripRank) -> bool {
    if a.holds_focus == b.holds_focus {
        a.shallowest <= b.shallowest
    } else {
        a.holds_focus
    }
}

/// Where `rank` goes in a list that is in order: behind everything that may stand before it.
pub open spec fn slot_of(sorted: Seq<StripRank>, rank: StripRank) -> int
    decreases sorted.len(),
{
    if sorted.len() == 0 {
        0
    } else if in_order(sorted.last(), rank) {
        sorted.len() as int
    } else {
        slot_of(sorted.drop_last(), rank)
    }
}

/// The list in order; equal ranks keep the order they came in.
pub open spec fn ordered(ranks: Seq<StripRank>) -> Seq<StripRank>
    decreases ranks.len(),
{
    if ranks.len() == 0 {
        Seq::empty()
    } else {
        let before = ordered(ranks.drop_last());
        before.insert(slot_of(before, ranks.last()), ranks.last())
    }
}

/// No container stands before one that should come first.
pub open spec fn is_ordered(ranks: Seq<StripRank>) -> bool {
    forall|i: int, j: int|
        0 <= i < j < ranks.len() ==> in_order(#[trigger] ranks[i], #[trigger] ranks[j])
}

proof fn slot_is_in_range(sorted: Seq<StripRank>, rank: StripRank)
    ensures
        0 <= slot_of(sorted, rank) <= sorted.len(),
        slot_of(sorted, rank) > 0 ==> in_order(sorted[slot_of(sorted, rank) - 1], rank),
        forall|k: int|
            slot_of(sorted, rank) <= k < sorted.len() ==> !in_order(#[trigger] sorted[k], rank),
    decreases sorted.len(),
{
    if sorted.len() > 0 && !in_order(sorted.last(), rank) {
        let rest = sorted.drop_last();
        slot_is_in_range(rest, rank);
        let s = slot_of(rest, rank);
        assert forall|k: int| s <= k < sorted.len() implies !in_order(#[trigger] sorted[k], rank) by {
            if k < rest.len() {
                assert(rest[k] == sorted[k]);
            }
        }
    }
}

/// The containers come out in order, each exactly once.
pub proof fn ordering_orders(ranks: Seq<StripRank>)
    ensures
        is_ordered(ordered(ranks)),
        ordered(ranks).to_multiset() == ranks.to_multiset(),
        ordered(ranks).len() == ranks.len(),
    decreases ranks.len(),
{
    broadcast use vstd::seq_lib::group_to_multiset_ensures;

    if ranks.len() > 0 {
        let rest = ranks.drop_last();
        let last = ranks.last();
        ordering_orders(rest);
        let before = ordered(rest);
        let s = slot_of(before, last);
        slot_is_in_range(before, last);
        let after = before.insert(s, last);
        assert forall|i: int, j: int| 0 <= i < j < after.len() implies in_order(
            #[trigger] after[i],
            #[trigger] after[j],
        ) by {
            let a = if i < s {
                i
            } else {
                i - 1
            };
            let b = if j < s {
                j
            } else {
                j - 1
            };
            if i != s && j != s {
                assert(after[i] == before[a] && after[j] == before[b]);
            } else if j == s {
                assert(after[i] == before[i]);
                assert(in_order(before[i], before[s - 1]) || i == s - 1);
            } else {
                assert(after[j] == before[b]);
                assert(!in_order(before[b], last));
            }
        }
        assert(ranks == rest.push(last));
        vstd::seq_lib::to_multiset_insert(before, s, last);
    } else {
        assert(ordered(ranks) =~= ranks);
    }
}

/// The flight's stacking order as containers.
pub struct Banding {
    pub floating_in_front: bool,
    /// Each window's place within its band.
    pub within: Vec<(WindowId, usize)>,
    /// The occupied containers of the strip, front to back.
    pub group_order: Vec<GroupKey>,
}

/// A tile's place within its band: a companion takes that of the window it traces, less the band.
pub open spec fn place_within(tile: OverlayTile, focus: Option<WindowId>) -> usize {
    (if tile.companion {
        tile.depth as int % GROUP_STRIDE as int
    } else {
        depth_within(tile.server_order, focus == Some(tile.window))
    }) as usize
}

/// The places of all tiles, by window; the last tile of a window counts.
pub open spec fn places(tiles: Seq<OverlayTile>, focus: Option<WindowId>) -> Seq<(WindowId, usize)>
    decreases tiles.len(),
{
    if tiles.len() == 0 {
        Seq::empty()
    } else {
        upserted(
            places(tiles.drop_last(), focus),
            (tiles.last().window, place_within(tiles.last(), focus)),
        )
    }
}

/// The frontmost place among `windows`, of those that have one; zero when none has.
pub open spec fn shallowest_among(
    windows: Seq<WindowId>,
    within: Seq<(WindowId, usize)>,
) -> Option<usize>
    decreases windows.len(),
{
    if windows.len() == 0 {
        None
    } else {
        let before = shallowest_among(windows.drop_last(), within);
        match lookup(within, windows.last()) {
            Some(entry) => match before {
                Some(least) => Some(
                    if entry.1 < least {
                        entry.1
                    } else {
                        least
                    },
                ),
                None => Some(entry.1),
            },
            None => before,
        }
    }
}

/// One occupied container's rank.
pub open spec fn rank_of(
    key: GroupKey,
    windows: Seq<WindowId>,
    within: Seq<(WindowId, usize)>,
    focus: Option<WindowId>,
) -> StripRank {
    StripRank {
        key,
        holds_focus: focus is Some && windows.contains(focus->0),
        shallowest: match shallowest_among(windows, within) {
            Some(least) => least,
            None => 0,
        },
    }
}

/// The windows of a group.
pub open spec fn group_windows(group: RigidGroup) -> Seq<WindowId> {
    group.members@.map_values(|m: RigidMember| m.window)
}

/// The ranks of the occupied rigid groups, in plan order.
pub open spec fn rigid_ranks(
    groups: Seq<RigidGroup>,
    within: Seq<(WindowId, usize)>,
    focus: Option<WindowId>,
) -> Seq<StripRank>
    decreases groups.len(),
{
    if groups.len() == 0 {
        Seq::empty()
    } else {
        let before = rigid_ranks(groups.drop_last(), within, focus);
        if groups.last().members@.len() > 0 {
            before.push(rank_of(groups.last().key, group_windows(groups.last()), within, focus))
        } else {
            before
        }
    }
}

/// The windows flying on their own: those that change size, then those that enter.
pub open spec fn loose_windows(plan: FlightPlan) -> Seq<WindowId> {
    plan.changing@.map_values(|e: (WindowId, Rect, Rect)| e.0) + plan.entrances@.map_values(
        |e: (WindowId, Rect, Rect)| e.0,
    )
}

/// The ranks of all occupied containers of the strip.
pub open spec fn strip_ranks(
    plan: FlightPlan,
    within: Seq<(WindowId, usize)>,
    focus: Option<WindowId>,
) -> Seq<StripRank> {
    let rigid = rigid_ranks(plan.groups@, within, focus);
    if loose_windows(plan).len() > 0 {
        rigid.push(rank_of(GroupKey::Loose, loose_windows(plan), within, focus))
    } else {
        rigid
    }
}

/// The occupied containers of the strip, front to back.
pub open spec fn container_order(
    plan: FlightPlan,
    tiles: Seq<OverlayTile>,
    focus: Option<WindowId>,
) -> Seq<GroupKey> {
    ordered(strip_ranks(plan, places(tiles, focus), focus)).map_values(|s: StripRank| s.key)
}

fn rank_windows(
    key: GroupKey,
    windows: &Vec<WindowId>,
    within: &Vec<(WindowId, usize)>,
    focus: Option<WindowId>,
) -> (r: StripRank)
    ensures
        r == rank_of(key, windows@, within@, focus),
{
    let mut least: Option<usize> = None;
    let mut i: usize = 0;
    while i < windows.len()
        invariant
            i <= windows.len(),
            least == shallowest_among(windows@.take(i as int), within@),
        decreases windows.len() - i,
    {
        assert(windows@.take(i + 1).drop_last() == windows@.take(i as int));
        if let Some(entry) = get(within, windows[i]) {
            least = match least {
                Some(before) => Some(
                    if entry.1 < before {
                        entry.1
                    } else {
                        before
                    },
                ),
                None => Some(entry.1),
            };
        }
        i += 1;
    }
    assert(windows@.take(windows@.len() as int) == windows@);
    let holds_focus: bool = match focus {
        Some(focused) => crate::flight::decision::contains(windows, focused),
        None => false,
    };
    StripRank {
        key,
        holds_focus,
        shallowest: match least {
            Some(place) => place,
            None => 0,
        },
    }
}

fn member_windows(members: &Vec<RigidMember>) -> (r: Vec<WindowId>)
    ensures
        r@ == members@.map_values(|m: RigidMember| m.window),
{
    let mut out: Vec<WindowId> = Vec::new();
    let mut i: usize = 0;
    while i < members.len()
        invariant
            i <= members.len(),
            out@ == members@.take(i as int).map_values(|m: RigidMember| m.window),
        decreases members.len() - i,
    {
        out.push(members[i].window);
        i += 1;
        assert(out@ =~= members@.take(i as int).map_values(|m: RigidMember| m.window));
    }
    assert(members@.take(members@.len() as int) == members@);
    out
}

fn push_windows(out: &mut Vec<WindowId>, entries: &Vec<(WindowId, Rect, Rect)>)
    ensures
        final(out)@ == old(out)@ + entries@.map_values(|e: (WindowId, Rect, Rect)| e.0),
{
    let ghost before = out@;
    let mut i: usize = 0;
    while i < entries.len()
        invariant
            i <= entries.len(),
            out@ == before + entries@.take(i as int).map_values(|e: (WindowId, Rect, Rect)| e.0),
        decreases entries.len() - i,
    {
        out.push(entries[i].0);
        i += 1;
        assert(out@ =~= before + entries@.take(i as int).map_values(
            |e: (WindowId, Rect, Rect)| e.0,
        ));
    }
    assert(entries@.take(entries@.len() as int) == entries@);
}

fn ranks_may_stand(a: StripRank, b: StripRank) -> (r: bool)
    ensures
        r == in_order(a, b),
{
    if a.holds_focus == b.holds_focus {
        a.shallowest <= b.shallowest
    } else {
        a.holds_focus
    }
}

fn insert_rank(sorted: &mut Vec<StripRank>, rank: StripRank)
    ensures
        final(sorted)@ == old(sorted)@.insert(slot_of(old(sorted)@, rank), rank),
{
    let mut at: usize = sorted.len();
    assert(sorted@.take(sorted@.len() as int) == sorted@);
    while at > 0 && !ranks_may_stand(sorted[at - 1], rank)
        invariant
            at <= sorted.len(),
            slot_of(sorted@, rank) == slot_of(sorted@.take(at as int), rank),
        decreases at,
    {
        assert(sorted@.take(at as int).drop_last() == sorted@.take(at - 1));
        at -= 1;
    }
    proof {
        if at > 0 {
            assert(sorted@.take(at as int).last() == sorted@[at - 1]);
        }
    }
    sorted.insert(at, rank);
}

/// The flight's stacking order as containers: band and place within reproduce every tile's depth.
pub fn band_plan(plan: &FlightPlan, tiles: &Vec<OverlayTile>, focus: Option<WindowId>) -> (r:
    Banding)
    ensures
        r.floating_in_front == (front_group(focus, tiles@) == StackGroup::Floating),
        r.within@ == places(tiles@, focus),
        r.group_order@ == container_order(*plan, tiles@, focus),
{
    let focused_group: StackGroup = focus_group(focus, tiles);
    let mut within: Vec<(WindowId, usize)> = Vec::new();
    let mut i: usize = 0;
    while i < tiles.len()
        invariant
            i <= tiles.len(),
            within@ == places(tiles@.take(i as int), focus),
        decreases tiles.len() - i,
    {
        assert(tiles@.take(i + 1).drop_last() == tiles@.take(i as int));
        let tile: OverlayTile = tiles[i];
        let depth: usize = if tile.companion {
            tile.depth % GROUP_STRIDE
        } else {
            let group: StackGroup = group_of(tile.floating);
            tile_depth(tile.server_order, is_focus(focus, tile.window), group, group)
        };
        upsert(&mut within, (tile.window, depth));
        i += 1;
    }
    assert(tiles@.take(tiles@.len() as int) == tiles@);

    let mut sorted: Vec<StripRank> = Vec::new();
    let mut g: usize = 0;
    while g < plan.groups.len()
        invariant
            g <= plan.groups.len(),
            within@ == places(tiles@, focus),
            sorted@ == ordered(rigid_ranks(plan.groups@.take(g as int), within@, focus)),
        decreases plan.groups.len() - g,
    {
        assert(plan.groups@.take(g + 1).drop_last() == plan.groups@.take(g as int));
        if plan.groups[g].members.len() > 0 {
            let windows: Vec<WindowId> = member_windows(&plan.groups[g].members);
            let rank: StripRank = rank_windows(plan.groups[g].key, &windows, &within, focus);
            proof {
                let ranks = rigid_ranks(plan.groups@.take(g as int), within@, focus);
                assert(ranks.push(rank).drop_last() == ranks);
            }
            insert_rank(&mut sorted, rank);
        }
        g += 1;
    }
    assert(plan.groups@.take(plan.groups@.len() as int) == plan.groups@);
    let mut loose: Vec<WindowId> = Vec::new();
    push_windows(&mut loose, &plan.changing);
    push_windows(&mut loose, &plan.entrances);
    assert(loose@ =~= loose_windows(*plan));
    if loose.len() > 0 {
        let rank: StripRank = rank_windows(GroupKey::Loose, &loose, &within, focus);
        proof {
            let ranks = rigid_ranks(plan.groups@, within@, focus);
            assert(ranks.push(rank).drop_last() == ranks);
        }
        insert_rank(&mut sorted, rank);
    }
    let mut group_order: Vec<GroupKey> = Vec::new();
    let mut k: usize = 0;
    while k < sorted.len()
        invariant
            k <= sorted.len(),
            group_order@ == sorted@.take(k as int).map_values(|s: StripRank| s.key),
        decreases sorted.len() - k,
    {
        group_order.push(sorted[k].key);
        k += 1;
        assert(group_order@ =~= sorted@.take(k as int).map_values(|s: StripRank| s.key));
    }
    assert(sorted@.take(sorted@.len() as int) == sorted@);
    Banding {
        floating_in_front: focused_group == StackGroup::Floating,
        within,
        group_order,
    }
}

/// Band and place within reproduce the depth every tile was stacked at, so the containers draw in
/// exactly the order the tiles would.
pub proof fn band_and_place_reproduce_the_depth(
    tiles: Seq<OverlayTile>,
    focus: Option<WindowId>,
    i: int,
)
    requires
        0 <= i < tiles.len(),
        !tiles[i].companion,
    ensures
        restacked(tiles, focus)[i].depth == band_of(
            group_for(tiles[i].floating),
            front_group(focus, tiles),
        ) + place_within(tiles[i], focus),
        place_within(tiles[i], focus) < GROUP_STRIDE,
{
}

/// Each rigid piece of a plan has a number of its own.
pub open spec fn numbered_apart(groups: Seq<RigidGroup>) -> bool {
    &&& forall|i: int| 0 <= i < groups.len() ==> (#[trigger] groups[i]).key is Rigid
    &&& forall|i: int, j: int|
        0 <= i < j < groups.len() ==> (#[trigger] groups[i]).key != (#[trigger] groups[j]).key
}

/// Some rank is that of `key`.
pub open spec fn ranked(ranks: Seq<StripRank>, key: GroupKey) -> bool {
    exists|i: int| 0 <= i < ranks.len() && (#[trigger] ranks[i]).key == key
}

/// No two ranks are of one container.
pub open spec fn ranked_once(ranks: Seq<StripRank>) -> bool {
    forall|i: int, j: int|
        0 <= i < j < ranks.len() ==> (#[trigger] ranks[i]).key != (#[trigger] ranks[j]).key
}

/// Some occupied group has the key.
pub open spec fn occupied(groups: Seq<RigidGroup>, key: GroupKey) -> bool {
    exists|i: int|
        0 <= i < groups.len() && (#[trigger] groups[i]).key == key && groups[i].members@.len() > 0
}

proof fn ordering_keeps_the_containers(ranks: Seq<StripRank>)
    ensures
        forall|key: GroupKey| #[trigger] ranked(ordered(ranks), key) == ranked(ranks, key),
        ranked_once(ranks) ==> ranked_once(ordered(ranks)),
    decreases ranks.len(),
{
    if ranks.len() > 0 {
        let rest = ranks.drop_last();
        let last = ranks.last();
        ordering_keeps_the_containers(rest);
        let before = ordered(rest);
        let s = slot_of(before, last);
        slot_is_in_range(before, last);
        let after = before.insert(s, last);
        assert forall|key: GroupKey| #[trigger] ranked(after, key) == ranked(ranks, key) by {
            if ranked(after, key) {
                let i = choose|i: int| 0 <= i < after.len() && (#[trigger] after[i]).key == key;
                if i == s {
                    assert(ranks[ranks.len() - 1].key == key);
                } else {
                    let k = if i < s {
                        i
                    } else {
                        i - 1
                    };
                    assert(before[k].key == key);
                    assert(ranked(before, key));
                    let r = choose|r: int| 0 <= r < rest.len() && (#[trigger] rest[r]).key == key;
                    assert(ranks[r].key == key);
                }
            }
            if ranked(ranks, key) {
                let r = choose|r: int| 0 <= r < ranks.len() && (#[trigger] ranks[r]).key == key;
                if r == ranks.len() - 1 {
                    assert(after[s].key == key);
                } else {
                    assert(rest[r].key == key);
                    assert(ranked(before, key));
                    let k = choose|k: int|
                        0 <= k < before.len() && (#[trigger] before[k]).key == key;
                    let i = if k < s {
                        k
                    } else {
                        k + 1
                    };
                    assert(after[i].key == key);
                }
            }
        }
        if ranked_once(ranks) {
            assert forall|i: int, j: int| 0 <= i < j < rest.len() implies (#[trigger] rest[i]).key
                != (#[trigger] rest[j]).key by {
                assert(ranks[i].key != ranks[j].key);
            }
            assert(!ranked(rest, last.key)) by {
                if ranked(rest, last.key) {
                    let r = choose|r: int|
                        0 <= r < rest.len() && (#[trigger] rest[r]).key == last.key;
                    assert(ranks[r].key != ranks[ranks.len() - 1].key);
                }
            }
            assert(!ranked(before, last.key));
            assert forall|i: int, j: int| 0 <= i < j < after.len() implies (
            #[trigger] after[i]).key != (#[trigger] after[j]).key by {
                let a = if i < s {
                    i
                } else {
                    i - 1
                };
                let b = if j < s {
                    j
                } else {
                    j - 1
                };
                if i != s && j != s {
                    assert(after[i] == before[a] && after[j] == before[b]);
                } else if j == s {
                    assert(after[i] == before[i]);
                } else {
                    assert(after[j] == before[b]);
                }
            }
        }
    } else {
        assert(ordered(ranks) =~= ranks);
    }
}

proof fn rigid_ranks_are_the_occupied_groups(
    groups: Seq<RigidGroup>,
    within: Seq<(WindowId, usize)>,
    focus: Option<WindowId>,
)
    requires
        numbered_apart(groups),
    ensures
        forall|key: GroupKey| #[trigger]
            ranked(rigid_ranks(groups, within, focus), key) == occupied(groups, key),
        ranked_once(rigid_ranks(groups, within, focus)),
    decreases groups.len(),
{
    if groups.len() > 0 {
        let rest = groups.drop_last();
        let last = groups.last();
        assert forall|i: int, j: int| 0 <= i < j < rest.len() implies (#[trigger] rest[i]).key != (
        #[trigger] rest[j]).key by {
            assert(groups[i].key != groups[j].key);
        }
        assert forall|i: int| 0 <= i < rest.len() implies (#[trigger] rest[i]).key is Rigid by {
            assert(groups[i].key is Rigid);
        }
        rigid_ranks_are_the_occupied_groups(rest, within, focus);
        let before = rigid_ranks(rest, within, focus);
        let ranks = rigid_ranks(groups, within, focus);
        assert(!occupied(rest, last.key)) by {
            if occupied(rest, last.key) {
                let i = choose|i: int|
                    0 <= i < rest.len() && (#[trigger] rest[i]).key == last.key
                        && rest[i].members@.len() > 0;
                assert(groups[i].key != groups[groups.len() - 1].key);
            }
        }
        assert(!ranked(before, last.key));
        assert forall|key: GroupKey| #[trigger] ranked(ranks, key) == occupied(groups, key) by {
            if ranked(ranks, key) {
                let i = choose|i: int| 0 <= i < ranks.len() && (#[trigger] ranks[i]).key == key;
                if i < before.len() {
                    assert(before[i].key == key);
                    assert(ranked(before, key));
                    let g = choose|g: int|
                        0 <= g < rest.len() && (#[trigger] rest[g]).key == key
                            && rest[g].members@.len() > 0;
                    assert(groups[g].key == key && groups[g].members@.len() > 0);
                } else {
                    assert(groups[groups.len() - 1].key == key);
                }
            }
            if occupied(groups, key) {
                let g = choose|g: int|
                    0 <= g < groups.len() && (#[trigger] groups[g]).key == key
                        && groups[g].members@.len() > 0;
                if g < rest.len() {
                    assert(rest[g].key == key && rest[g].members@.len() > 0);
                    assert(ranked(before, key));
                    let i = choose|i: int|
                        0 <= i < before.len() && (#[trigger] before[i]).key == key;
                    assert(ranks[i].key == key);
                } else {
                    assert(ranks[ranks.len() - 1].key == key);
                }
            }
        }
        assert forall|i: int, j: int| 0 <= i < j < ranks.len() implies (#[trigger] ranks[i]).key
            != (#[trigger] ranks[j]).key by {
            if j < before.len() {
                assert(before[i].key != before[j].key);
            } else {
                assert(before[i] == ranks[i]);
            }
        }
    }
}

/// Every occupied container of the strip is ordered, once, and nothing else is: the floating
/// container never is.
pub proof fn every_occupied_container_is_ordered_once(
    plan: FlightPlan,
    tiles: Seq<OverlayTile>,
    focus: Option<WindowId>,
)
    requires
        numbered_apart(plan.groups@),
    ensures
        ({
            let order = container_order(plan, tiles, focus);
            &&& order.no_duplicates()
            &&& !order.contains(GroupKey::Floating)
            &&& order.contains(GroupKey::Loose) == (loose_windows(plan).len() > 0)
            &&& forall|i: int|
                0 <= i < plan.groups@.len() && (#[trigger] plan.groups@[i]).members@.len() > 0
                    ==> order.contains(plan.groups@[i].key)
            &&& forall|key: GroupKey| #[trigger]
                order.contains(key) && key != GroupKey::Loose ==> occupied(plan.groups@, key)
        }),
{
    let within = places(tiles, focus);
    let rigid = rigid_ranks(plan.groups@, within, focus);
    let ranks = strip_ranks(plan, within, focus);
    let sorted = ordered(ranks);
    let order = container_order(plan, tiles, focus);
    rigid_ranks_are_the_occupied_groups(plan.groups@, within, focus);
    assert forall|key: GroupKey| occupied(plan.groups@, key) implies key is Rigid by {
        let g = choose|g: int|
            0 <= g < plan.groups@.len() && (#[trigger] plan.groups@[g]).key == key
                && plan.groups@[g].members@.len() > 0;
        assert(plan.groups@[g].key is Rigid);
    }
    assert(!ranked(rigid, GroupKey::Loose) && !ranked(rigid, GroupKey::Floating));
    let loose = loose_windows(plan).len() > 0;
    assert forall|key: GroupKey| #[trigger] ranked(ranks, key) == (occupied(plan.groups@, key) || (
    loose && key == GroupKey::Loose)) by {
        if ranked(ranks, key) {
            let i = choose|i: int| 0 <= i < ranks.len() && (#[trigger] ranks[i]).key == key;
            if i < rigid.len() {
                assert(rigid[i].key == key);
                assert(ranked(rigid, key));
            }
        }
        if occupied(plan.groups@, key) {
            assert(ranked(rigid, key));
            let i = choose|i: int| 0 <= i < rigid.len() && (#[trigger] rigid[i]).key == key;
            assert(ranks[i].key == key);
        }
        if loose && key == GroupKey::Loose {
            assert(ranks[ranks.len() - 1].key == key);
        }
    }
    assert(ranked_once(ranks)) by {
        assert forall|i: int, j: int| 0 <= i < j < ranks.len() implies (#[trigger] ranks[i]).key
            != (#[trigger] ranks[j]).key by {
            assert(ranks[i] == rigid[i]);
            assert(ranked(rigid, ranks[i].key));
            if j < rigid.len() {
                assert(rigid[i].key != rigid[j].key);
            }
        }
    }
    ordering_keeps_the_containers(ranks);
    assert forall|key: GroupKey| #[trigger] order.contains(key) == ranked(sorted, key) by {
        if order.contains(key) {
            let i = choose|i: int| 0 <= i < order.len() && order[i] == key;
            assert(sorted[i].key == key);
        }
        if ranked(sorted, key) {
            let i = choose|i: int| 0 <= i < sorted.len() && (#[trigger] sorted[i]).key == key;
            assert(order[i] == key);
        }
    }
    assert forall|i: int, j: int| 0 <= i < order.len() && 0 <= j < order.len() && i
        != j implies order[i] != order[j] by {
        let a = if i < j {
            i
        } else {
            j
        };
        let b = if i < j {
            j
        } else {
            i
        };
        assert(sorted[a].key != sorted[b].key);
    }
    assert forall|i: int|
        0 <= i < plan.groups@.len() && (
        #[trigger] plan.groups@[i]).members@.len() > 0 implies order.contains(
        plan.groups@[i].key,
    ) by {
        assert(occupied(plan.groups@, plan.groups@[i].key));
        assert(ranked(sorted, plan.groups@[i].key));
    }
    assert(order.contains(GroupKey::Floating) == ranked(sorted, GroupKey::Floating));
    assert(order.contains(GroupKey::Loose) == ranked(sorted, GroupKey::Loose));
    assert forall|key: GroupKey| #[trigger] order.contains(key) && key
        != GroupKey::Loose implies occupied(plan.groups@, key) by {
        assert(ranked(sorted, key));
        assert(ranked(ranks, key));
    }
}

proof fn every_tile_has_its_place(tiles: Seq<OverlayTile>, focus: Option<WindowId>)
    requires
        one_each(tiles),
    ensures
        one_each(places(tiles, focus)),
        forall|i: int|
            0 <= i < tiles.len() ==> lookup(
                places(tiles, focus),
                (#[trigger] tiles[i]).window,
            ) == Some((tiles[i].window, place_within(tiles[i], focus))),
    decreases tiles.len(),
{
    if tiles.len() > 0 {
        let rest = tiles.drop_last();
        let last = tiles.last();
        assert forall|i: int, j: int| 0 <= i < j < rest.len() implies #[trigger] rest[i].key()
            != #[trigger] rest[j].key() by {
            assert(tiles[i].key() != tiles[j].key());
        }
        every_tile_has_its_place(rest, focus);
        let item = (last.window, place_within(last, focus));
        upserting_keeps_one_each(places(rest, focus), item);
        assert forall|i: int| 0 <= i < tiles.len() implies lookup(
            places(tiles, focus),
            (#[trigger] tiles[i]).window,
        ) == Some((tiles[i].window, place_within(tiles[i], focus))) by {
            if i < rest.len() {
                assert(rest[i] == tiles[i]);
                assert(tiles[i].key() != tiles[tiles.len() - 1].key());
            }
        }
    }
}

/// The containers draw the tiles in exactly the order they were stacked in: the band of a window's
/// group and its place in it add up to the window's depth, and the floating container leads exactly
/// when it holds the focus.
pub proof fn the_banding_draws_what_was_stacked(
    tiles: Seq<OverlayTile>,
    focus: Option<WindowId>,
)
    requires
        one_each(tiles),
        forall|i: int| 0 <= i < tiles.len() ==> !(#[trigger] tiles[i]).companion,
    ensures
        ({
            let shown = restacked(tiles, focus);
            let front = front_group(focus, shown);
            &&& front == StackGroup::Floating <==> exists|i: int|
                0 <= i < shown.len() && (#[trigger] shown[i]).floating && focus == Some(
                    shown[i].window,
                )
            &&& forall|i: int|
                0 <= i < shown.len() ==> {
                    let place = lookup(places(shown, focus), (#[trigger] shown[i]).window);
                    place is Some && band_of(group_for(shown[i].floating), front) + (place->0).1
                        == shown[i].depth
                }
            &&& forall|i: int, j: int|
                0 <= i < shown.len() && 0 <= j < shown.len() && (#[trigger] shown[i]).floating && !(
                #[trigger] shown[j]).floating ==> if front == StackGroup::Floating {
                    shown[i].depth < shown[j].depth
                } else {
                    shown[j].depth < shown[i].depth
                }
        }),
{
    let shown = restacked(tiles, focus);
    let front = front_group(focus, shown);
    restacking_keeps_the_front(tiles, focus);
    assert forall|i: int, j: int| 0 <= i < j < shown.len() implies #[trigger] shown[i].key()
        != #[trigger] shown[j].key() by {
        assert(tiles[i].key() != tiles[j].key());
    }
    every_tile_has_its_place(shown, focus);
    assert forall|i: int| 0 <= i < shown.len() implies {
        let place = lookup(places(shown, focus), (#[trigger] shown[i]).window);
        place is Some && band_of(group_for(shown[i].floating), front) + (place->0).1
            == shown[i].depth
    } by {
        assert(!tiles[i].companion);
    }
    assert forall|i: int, j: int|
        0 <= i < shown.len() && 0 <= j < shown.len() && (#[trigger] shown[i]).floating && !(
        #[trigger] shown[j]).floating implies if front == StackGroup::Floating {
        shown[i].depth < shown[j].depth
    } else {
        shown[j].depth < shown[i].depth
    } by {
        assert(!tiles[i].companion && !tiles[j].companion);
    }
    if let Some(window) = focus {
        first_at_finds(shown, window);
        if front == StackGroup::Floating {
            assert(shown[first_at(shown, window)].key() == window);
        }
        if exists|i: int|
            0 <= i < shown.len() && (#[trigger] shown[i]).floating && focus == Some(
                shown[i].window,
            ) {
            let i = choose|i: int|
                0 <= i < shown.len() && (#[trigger] shown[i]).floating && focus == Some(
                    shown[i].window,
                );
            assert(shown[i].key() == window);
            assert(listed(shown, window));
            let p = first_at(shown, window);
            if p < i {
                assert(shown[p].key() != shown[i].key());
            } else if i < p {
                assert(shown[i].key() != window);
            }
        }
    }
}

/// Putting tiles at their places changes their depth alone, and not that of a border.
pub proof fn restacking_changes_depths_alone(
    tiles: Seq<OverlayTile>,
    focus: Option<WindowId>,
    i: int,
)
    requires
        0 <= i < tiles.len(),
    ensures
        ({
            let after = restacked(tiles, focus)[i];
            &&& restacked(tiles, focus).len() == tiles.len()
            &&& after.window == tiles[i].window && after.snapshot == tiles[i].snapshot
            &&& after.from == tiles[i].from && after.to == tiles[i].to
            &&& after.floating == tiles[i].floating && after.companion == tiles[i].companion
            &&& after.server_order == tiles[i].server_order && after.focused == tiles[i].focused
            &&& tiles[i].companion ==> after.depth == tiles[i].depth
        }),
{
}

/// Within a group the focused window leads, the others follow in the window server's order, and those
/// it did not list come last.
pub proof fn a_group_keeps_the_servers_order(
    tiles: Seq<OverlayTile>,
    focus: Option<WindowId>,
    i: int,
    j: int,
)
    requires
        0 <= i < tiles.len(),
        0 <= j < tiles.len(),
        !tiles[i].companion,
        !tiles[j].companion,
        tiles[i].floating == tiles[j].floating,
        focus != Some(tiles[j].window),
    ensures
        ({
            let (a, b) = (restacked(tiles, focus)[i].depth, restacked(tiles, focus)[j].depth);
            &&& focus == Some(tiles[i].window) ==> a < b
            &&& focus != Some(tiles[i].window) ==> {
                &&& tiles[j].server_order is None ==> a <= b
                &&& tiles[i].server_order matches Some(first) ==> {
                    &&& tiles[j].server_order matches Some(second) ==> {
                        &&& first <= second ==> a <= b
                        &&& first < second && first < 9_998 ==> a < b
                    }
                    &&& tiles[j].server_order is None && first < 9_998 ==> a < b
                }
            }
            &&& a < 20_000
        }),
{
}

/// The group in front is the one of the window in focus; with no focus, or one that is not being
/// drawn, it is the strip.
pub proof fn the_front_is_the_focused_windows(
    tiles: Seq<OverlayTile>,
    window: WindowId,
    i: int,
    j: int,
)
    requires
        one_each(tiles),
        0 <= i < tiles.len(),
        0 <= j < tiles.len(),
        !tiles[i].companion,
        !tiles[j].companion,
    ensures
        tiles[i].floating && !tiles[j].floating ==> restacked(tiles, None)[j].depth < restacked(
            tiles,
            None,
        )[i].depth,
        tiles[i].window == window && tiles[i].floating != tiles[j].floating ==> restacked(
            tiles,
            Some(window),
        )[i].depth < restacked(tiles, Some(window))[j].depth,
        !listed(tiles, window) && tiles[i].floating && !tiles[j].floating ==> restacked(
            tiles,
            Some(window),
        )[j].depth < restacked(tiles, Some(window))[i].depth,
{
    if tiles[i].window == window {
        assert(tiles[i].key() == window);
        assert forall|k: int| 0 <= k < i implies #[trigger] tiles[k].key() != window by {
            assert(tiles[k].key() != tiles[i].key());
        }
        crate::keyed::first_at_is(tiles, window, i);
        assert(listed(tiles, window));
    }
}

/// Following the plan changes where a tile ends and nothing else; a window the plan leaves out keeps
/// its end.
pub proof fn a_tile_follows_the_plan(tile: OverlayTile, plan: FlightPlan)
    ensures
        ({
            let after = synced(tile, plan);
            &&& after.window == tile.window && after.from == tile.from
            &&& after.snapshot == tile.snapshot && after.depth == tile.depth
            &&& after.floating == tile.floating && after.companion == tile.companion
            &&& after.focused == tile.focused && after.server_order == tile.server_order
            &&& plan.destination(tile.window) is None ==> after.to == tile.to
            &&& plan.destination(tile.window) matches Some(to) ==> after.to == to
        }),
{
}

/// Of two containers in order the one that holds the focus is first; where both or neither does, the
/// one whose frontmost window is further in front.
pub proof fn a_container_with_the_focus_leads(ranks: Seq<StripRank>, i: int, j: int)
    requires
        0 <= i < j < ranks.len(),
    ensures
        ({
            let sorted = ordered(ranks);
            &&& sorted.len() == ranks.len()
            &&& sorted[j].holds_focus ==> sorted[i].holds_focus
            &&& sorted[i].holds_focus == sorted[j].holds_focus ==> sorted[i].shallowest
                <= sorted[j].shallowest
        }),
{
    ordering_orders(ranks);
    assert(in_order(ordered(ranks)[i], ordered(ranks)[j]));
}

/// Containers already in order stay as they are, equal ones in the order they came.
pub proof fn ordering_leaves_what_is_in_order(ranks: Seq<StripRank>)
    requires
        is_ordered(ranks),
    ensures
        ordered(ranks) == ranks,
    decreases ranks.len(),
{
    if ranks.len() > 0 {
        let rest = ranks.drop_last();
        assert(is_ordered(rest)) by {
            assert forall|i: int, j: int| 0 <= i < j < rest.len() implies in_order(
                #[trigger] rest[i],
                #[trigger] rest[j],
            ) by {
                assert(in_order(ranks[i], ranks[j]));
            }
        }
        ordering_leaves_what_is_in_order(rest);
        if rest.len() > 0 {
            assert(in_order(ranks[ranks.len() - 2], ranks[ranks.len() - 1]));
        }
        assert(ordered(ranks) =~= ranks);
    } else {
        assert(ordered(ranks) =~= ranks);
    }
}

/// A container is ranked by its frontmost window: none of its windows that has a place is further in
/// front, and one of them has exactly that place. It holds the focus when the focus is one of its
/// windows.
pub proof fn a_container_ranks_by_its_frontmost_window(
    key: GroupKey,
    windows: Seq<WindowId>,
    within: Seq<(WindowId, usize)>,
    focus: Option<WindowId>,
    i: int,
)
    requires
        0 <= i < windows.len(),
        listed(within, windows[i]),
    ensures
        ({
            let rank = rank_of(key, windows, within, focus);
            &&& rank.key == key
            &&& rank.holds_focus <==> exists|k: int|
                0 <= k < windows.len() && Some(#[trigger] windows[k]) == focus
            &&& rank.shallowest <= (lookup(within, windows[i])->0).1
            &&& exists|k: int|
                0 <= k < windows.len() && listed(within, #[trigger] windows[k]) && (lookup(
                    within,
                    windows[k],
                )->0).1 == rank.shallowest
        }),
{
    the_least_place_is_had(windows, within, i);
    if focus is Some && windows.contains(focus->0) {
        let k = choose|k: int| 0 <= k < windows.len() && windows[k] == focus->0;
        assert(Some(windows[k]) == focus);
    }
}

proof fn the_least_place_is_had(windows: Seq<WindowId>, within: Seq<(WindowId, usize)>, i: int)
    ensures
        shallowest_among(windows, within) matches Some(least) ==> exists|k: int|
            0 <= k < windows.len() && listed(within, #[trigger] windows[k]) && (lookup(
                within,
                windows[k],
            )->0).1 == least,
        0 <= i < windows.len() && listed(within, windows[i]) ==> shallowest_among(
            windows,
            within,
        ) is Some && shallowest_among(windows, within)->0 <= (lookup(within, windows[i])->0).1,
    decreases windows.len(),
{
    if windows.len() > 0 {
        let rest = windows.drop_last();
        the_least_place_is_had(rest, within, i);
        if 0 <= i < rest.len() {
            assert(rest[i] == windows[i]);
        }
        if shallowest_among(windows, within) is Some {
            let least = shallowest_among(windows, within)->0;
            let n = windows.len() - 1;
            if listed(within, windows[n]) && (lookup(within, windows[n])->0).1 == least {
                assert(listed(within, windows[n]));
            } else {
                let k = choose|k: int|
                    0 <= k < rest.len() && listed(within, #[trigger] rest[k]) && (lookup(
                        within,
                        rest[k],
                    )->0).1 == least;
                assert(rest[k] == windows[k]);
            }
        }
    }
}

/// A border has the place of the window it rides with: one at a window's depth is in that window's
/// place within the band.
pub proof fn a_border_takes_its_windows_place(
    tiles: Seq<OverlayTile>,
    focus: Option<WindowId>,
    i: int,
    border: OverlayTile,
)
    requires
        0 <= i < tiles.len(),
        !tiles[i].companion,
        border.companion,
        border.depth == restacked(tiles, focus)[i].depth,
    ensures
        place_within(border, focus) == place_within(tiles[i], focus),
{
}

/// A tile shows its own window, from where it starts to where it ends.
pub proof fn a_tile_is_what_it_shows(tile: OverlayTile)
    ensures
        tile.shows() == tile.window,
        tile.starts() == tile.from,
        tile.ends() == tile.to,
        tile.floats() == tile.floating,
        tile.accompanies() == tile.companion,
        tile.key() == tile.window,
{
}

/// Every container of the strip is ranked by its own windows: a rigid group by its members, the loose
/// container by the windows that change size or enter.
pub proof fn a_container_is_ranked_by_its_own_windows(
    plan: FlightPlan,
    within: Seq<(WindowId, usize)>,
    focus: Option<WindowId>,
    k: int,
)
    requires
        0 <= k < strip_ranks(plan, within, focus).len(),
    ensures
        ({
            let rank = strip_ranks(plan, within, focus)[k];
            ||| exists|g: int|
                0 <= g < plan.groups@.len() && (#[trigger] plan.groups@[g]).members@.len() > 0 && rank
                    == rank_of(
                    plan.groups@[g].key,
                    plan.groups@[g].members@.map_values(|m: RigidMember| m.window),
                    within,
                    focus,
                )
            ||| rank == rank_of(
                GroupKey::Loose,
                plan.changing@.map_values(|e: (WindowId, Rect, Rect)| e.0)
                    + plan.entrances@.map_values(|e: (WindowId, Rect, Rect)| e.0),
                within,
                focus,
            )
        }),
{
    let rigid = rigid_ranks(plan.groups@, within, focus);
    if k < rigid.len() {
        a_rigid_rank_is_a_groups(plan.groups@, within, focus, k);
    }
}

proof fn a_rigid_rank_is_a_groups(
    groups: Seq<RigidGroup>,
    within: Seq<(WindowId, usize)>,
    focus: Option<WindowId>,
    k: int,
)
    requires
        0 <= k < rigid_ranks(groups, within, focus).len(),
    ensures
        exists|g: int|
            0 <= g < groups.len() && (#[trigger] groups[g]).members@.len() > 0 && rigid_ranks(
                groups,
                within,
                focus,
            )[k] == rank_of(
                groups[g].key,
                groups[g].members@.map_values(|m: RigidMember| m.window),
                within,
                focus,
            ),
    decreases groups.len(),
{
    let rest = groups.drop_last();
    let before = rigid_ranks(rest, within, focus);
    if k < before.len() {
        a_rigid_rank_is_a_groups(rest, within, focus, k);
        let g = choose|g: int|
            0 <= g < rest.len() && (#[trigger] rest[g]).members@.len() > 0 && before[k] == rank_of(
                rest[g].key,
                rest[g].members@.map_values(|m: RigidMember| m.window),
                within,
                focus,
            );
        assert(groups[g] == rest[g]);
    } else {
        assert(groups[groups.len() - 1].members@.len() > 0);
    }
}

/// The container that holds the focus is drawn first of the strip.
pub proof fn the_focused_container_is_drawn_first(
    plan: FlightPlan,
    tiles: Seq<OverlayTile>,
    focus: WindowId,
    g: int,
    m: int,
)
    requires
        0 <= g < plan.groups@.len(),
        0 <= m < plan.groups@[g].members@.len(),
        plan.groups@[g].members@[m].window == focus,
    ensures
        ({
            let first = ordered(strip_ranks(plan, places(tiles, Some(focus)), Some(focus)))[0];
            container_order(plan, tiles, Some(focus)).len() > 0 && container_order(
                plan,
                tiles,
                Some(focus),
            )[0] == first.key && first.holds_focus
        }),
{
    let within = places(tiles, Some(focus));
    let rigid = rigid_ranks(plan.groups@, within, Some(focus));
    let ranks = strip_ranks(plan, within, Some(focus));
    a_focused_group_is_ranked(plan.groups@, within, focus, g, m);
    let k = choose|k: int| 0 <= k < rigid.len() && (#[trigger] rigid[k]).holds_focus;
    assert(ranks[k] == rigid[k]);
    ordering_orders(ranks);
    let sorted = ordered(ranks);
    broadcast use vstd::seq_lib::group_to_multiset_ensures;

    assert(ranks.contains(ranks[k]));
    assert(ranks.to_multiset().count(ranks[k]) > 0);
    assert(sorted.to_multiset().count(ranks[k]) > 0);
    assert(sorted.contains(ranks[k]));
    let p = choose|p: int| 0 <= p < sorted.len() && sorted[p] == ranks[k];
    if p > 0 {
        assert(in_order(sorted[0], sorted[p]));
    }
}

proof fn a_focused_group_is_ranked(
    groups: Seq<RigidGroup>,
    within: Seq<(WindowId, usize)>,
    focus: WindowId,
    g: int,
    m: int,
)
    requires
        0 <= g < groups.len(),
        0 <= m < groups[g].members@.len(),
        groups[g].members@[m].window == focus,
    ensures
        exists|k: int|
            0 <= k < rigid_ranks(groups, within, Some(focus)).len() && (#[trigger] rigid_ranks(
                groups,
                within,
                Some(focus),
            )[k]).holds_focus,
    decreases groups.len(),
{
    let rest = groups.drop_last();
    let before = rigid_ranks(rest, within, Some(focus));
    let all = rigid_ranks(groups, within, Some(focus));
    if g < rest.len() {
        assert(rest[g] == groups[g]);
        a_focused_group_is_ranked(rest, within, focus, g, m);
        let k = choose|k: int| 0 <= k < before.len() && (#[trigger] before[k]).holds_focus;
        assert(all[k] == before[k]);
    } else {
        let windows = group_windows(groups[g]);
        assert(windows[m] == focus);
        assert(windows.contains(focus));
        assert(all[before.len() as int].holds_focus);
    }
}

/// The floating container is in front exactly when the focus is a floating window that is drawn.
pub proof fn the_floating_container_leads_with_the_focus(
    plan: FlightPlan,
    tiles: Vec<OverlayTile>,
    focus: Option<WindowId>,
    banding: Banding,
    i: int,
)
    requires
        one_each(tiles@),
        call_ensures(band_plan, (&plan, &tiles, focus), banding),
    ensures
        focus is None ==> !banding.floating_in_front,
        0 <= i < tiles@.len() && focus == Some(tiles@[i].window) ==> banding.floating_in_front
            == tiles@[i].floating,
        focus matches Some(window) ==> !listed(tiles@, window) ==> !banding.floating_in_front,
        0 <= i < tiles@.len() && !tiles@[i].companion && focus == Some(tiles@[i].window)
            ==> lookup(banding.within@, tiles@[i].window) == Some((tiles@[i].window, 0usize)),
        banding.group_order@.len() == strip_ranks(plan, banding.within@, focus).len(),
{
    let ranks = strip_ranks(plan, banding.within@, focus);
    ordering_orders(ranks);
    if 0 <= i < tiles@.len() && focus == Some(tiles@[i].window) {
        let window = tiles@[i].window;
        assert(tiles@[i].key() == window);
        assert forall|k: int| 0 <= k < i implies #[trigger] tiles@[k].key() != window by {
            assert(tiles@[k].key() != tiles@[i].key());
        }
        crate::keyed::first_at_is(tiles@, window, i);
        assert(listed(tiles@, window));
        every_tile_has_its_place(tiles@, focus);
    }
}

} // verus!
