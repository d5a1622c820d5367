//! The animation in progress: its tiles, what it holds for and what it still owes.
use vstd::prelude::*;

use crate::fit::{is_a_resize, outgrown, outgrows, resizes};
use crate::flight::decision::{
    capture_work_allowed, contains, entrance_from, grown_from,
    late_join_duration, mark_stale_on_untiled_change, merge_action, merge_rule, reveal_hold_limit,
    Admitted, CaptureKind, Claimed, FlightPhase, PendingEntrance, TileState, HOLD_CAP, LIFT_GRACE,
    REFRESH_DESTINATION_AT,
};
use crate::flight::plan::FlightPlan;
use crate::flight::stack::{restack, restacked, OverlayTile};
use crate::geometry::{same_frame, Rect, Size};
use crate::ids::WindowId;
use crate::keyed::{
    copied, find, first_at, first_at_finds, get, holds, listed, lookup, one_each, upsert_all,
    upserted_all, Keyed,
};
use crate::snapshot::WindowSnapshot;
use crate::time::Progress;

verus! {

/// One flight, from composition to lift.
pub struct RunningAnimation {
    pub tiles: Vec<OverlayTile>,
    /// Where each window must end up, in display coordinates. Sent once the overlay covers them.
    pub final_frames: Vec<(WindowId, Rect)>,
    pub frames_applied: bool,
    /// When the tiles began to move; `None` while still collecting windows.
    pub started: Option<u64>,
    pub duration: u64,
    /// Progress, in hundredths, at which the real windows are placed.
    pub apply_at: u8,
    /// Windows waiting for a first picture; each also holds in `awaiting`.
    pub entrances: Vec<PendingEntrance>,
    /// Windows whose pixels are still rendering, with the size that counts as ready. The flight
    /// holds at frame zero until this empties or `hold_deadline` passes.
    pub awaiting: Vec<(WindowId, Size)>,
    /// When to stop waiting for reveal pixels and fly the placeholder.
    pub hold_deadline: Option<u64>,
    /// Whether the focus change's ends have been recaptured.
    pub destination_refreshed: bool,
    /// Windows the refresh recaptured: the only tiles that may take a picture mid-flight.
    pub refresh_targets: Vec<WindowId>,
    /// Windows whose hairline landed this flight, so nothing is harvested twice.
    pub harvested: Vec<WindowId>,
    /// The window gaining focus, from the latest pass that named one; its group is in front.
    pub focus: Option<WindowId>,
    /// The flight as rigid pieces.
    pub plan: FlightPlan,
}

/// What merging `tile` makes of the tiles of a flight: a redundant one changes nothing, a
/// retargeted one keeps only the original start, so a moving window is not yanked backwards.
pub open spec fn merged(tiles: Seq<OverlayTile>, tile: OverlayTile) -> Seq<OverlayTile> {
    match merge_of(tiles, tile) {
        Admitted::Redundant => tiles,
        Admitted::Retargeted => tiles.update(
            first_at(tiles, tile.window),
            OverlayTile { from: tiles[first_at(tiles, tile.window)].from, ..tile },
        ),
        Admitted::Joined => tiles.push(tile),
    }
}

/// What becomes of `tile` when it is offered to a flight.
pub open spec fn merge_of(tiles: Seq<OverlayTile>, tile: OverlayTile) -> Admitted {
    merge_rule(
        match lookup(tiles, tile.window) {
            Some(held) => Some(held.to),
            None => None,
        },
        tile.to,
    )
}

/// Merging all of `more`, in order.
pub open spec fn merged_all(tiles: Seq<OverlayTile>, more: Seq<OverlayTile>) -> Seq<OverlayTile>
    decreases more.len(),
{
    if more.len() == 0 {
        tiles
    } else {
        merged(merged_all(tiles, more.drop_last()), more.last())
    }
}

/// What became of each of `more`, in order.
pub open spec fn outcomes_of(tiles: Seq<OverlayTile>, more: Seq<OverlayTile>) -> Seq<
    (WindowId, Admitted),
>
    decreases more.len(),
{
    if more.len() == 0 {
        Seq::empty()
    } else {
        outcomes_of(tiles, more.drop_last()).push(
            (more.last().window, merge_of(merged_all(tiles, more.drop_last()), more.last())),
        )
    }
}

/// The tile for a reserved entrance whose picture has landed: frontmost and focused, since a window
/// is raised on open and about to hold focus.
pub open spec fn tile_for(entrance: PendingEntrance, snapshot: WindowSnapshot) -> OverlayTile {
    OverlayTile {
        window: entrance.window,
        from: grown_from(entrance.to),
        to: entrance.to,
        snapshot,
        floating: entrance.floating,
        server_order: Some(0),
        depth: 0,
        companion: false,
        focused: true,
    }
}

/// The tile for a reserved entrance whose picture has landed.
pub fn entrance_tile(entrance: &PendingEntrance, snapshot: &WindowSnapshot) -> (r: OverlayTile)
    ensures
        r == tile_for(*entrance, *snapshot),
{
    OverlayTile {
        window: entrance.window,
        from: entrance_from(entrance.to),
        to: entrance.to,
        snapshot: *snapshot,
        floating: entrance.floating,
        server_order: Some(0),
        depth: 0,
        companion: false,
        focused: true,
    }
}

/// The flight a moment later with other tiles and nothing else changed.
pub open spec fn only_tiles_changed(before: RunningAnimation, after: RunningAnimation) -> bool {
    &&& after.final_frames == before.final_frames
    &&& after.frames_applied == before.frames_applied
    &&& after.started == before.started
    &&& after.duration == before.duration
    &&& after.apply_at == before.apply_at
    &&& after.entrances == before.entrances
    &&& after.awaiting == before.awaiting
    &&& after.hold_deadline == before.hold_deadline
    &&& after.destination_refreshed == before.destination_refreshed
    &&& after.refresh_targets == before.refresh_targets
    &&& after.harvested == before.harvested
    &&& after.focus == before.focus
    &&& after.plan == before.plan
}

/// Nothing changed but the tiles, the entrances and the holds.
pub open spec fn only_composition_changed(
    before: RunningAnimation,
    after: RunningAnimation,
) -> bool {
    &&& after.final_frames == before.final_frames
    &&& after.frames_applied == before.frames_applied
    &&& after.started == before.started
    &&& after.duration == before.duration
    &&& after.apply_at == before.apply_at
    &&& after.hold_deadline == before.hold_deadline
    &&& after.destination_refreshed == before.destination_refreshed
    &&& after.refresh_targets == before.refresh_targets
    &&& after.harvested == before.harvested
    &&& after.focus == before.focus
    &&& after.plan == before.plan
}

/// The tiles with the first one of `window` wearing `snapshot`.
pub open spec fn rewearing(
    tiles: Seq<OverlayTile>,
    window: WindowId,
    snapshot: WindowSnapshot,
) -> Seq<OverlayTile> {
    if listed(tiles, window) {
        tiles.update(
            first_at(tiles, window),
            OverlayTile { snapshot, ..tiles[first_at(tiles, window)] },
        )
    } else {
        tiles
    }
}

/// What a settled picture does for a flight that has not started: nothing unless it is usable and
/// fits the size the window is held for, or for a window not held, the destination of its tile.
pub open spec fn claim_rule(
    flight: RunningAnimation,
    window: WindowId,
    snapshot: WindowSnapshot,
) -> Option<Claimed> {
    if flight.started is Some {
        None
    } else if listed(flight.awaiting@, window) {
        let size = flight.awaiting@[first_at(flight.awaiting@, window)].1;
        if !snapshot.coverage.usable() || !snapshot.suits(size) {
            None
        } else if flight.awaiting@.len() == 1 {
            Some(Claimed::Released)
        } else {
            Some(Claimed::Held)
        }
    } else if listed(flight.tiles@, window) {
        let to = flight.tiles@[first_at(flight.tiles@, window)].to;
        if !snapshot.coverage.usable() || !snapshot.suits(to.size) {
            None
        } else {
            Some(Claimed::Refreshed)
        }
    } else {
        None
    }
}

/// `after` is `before` once a settled picture of `window` was offered to it: what no claim takes
/// changes nothing, a composed tile just wears the picture, and a hold is given up, its entrance
/// composed.
pub open spec fn claims(
    before: RunningAnimation,
    after: RunningAnimation,
    window: WindowId,
    snapshot: WindowSnapshot,
) -> bool {
    &&& only_composition_changed(before, after)
    &&& match claim_rule(before, window, snapshot) {
        None => after == before,
        Some(Claimed::Refreshed) => {
            &&& after.tiles@ == rewearing(before.tiles@, window, snapshot)
            &&& after.entrances == before.entrances
            &&& after.awaiting == before.awaiting
        },
        Some(_) => {
            let at = first_at(before.awaiting@, window);
            let entering = first_at(before.entrances@, window);
            &&& after.awaiting@ == before.awaiting@.remove(at)
            &&& if listed(before.entrances@, window) {
                &&& after.entrances@ == before.entrances@.remove(entering)
                &&& after.tiles@ == restacked(
                    merged(before.tiles@, tile_for(before.entrances@[entering], snapshot)),
                    before.focus,
                )
            } else {
                &&& after.entrances@ == before.entrances@
                &&& after.tiles@ == rewearing(before.tiles@, window, snapshot)
            }
        },
    }
}

/// A late picture of `window` is taken in by a moving flight that reserved a place for it.
pub open spec fn enters(
    flight: RunningAnimation,
    window: WindowId,
    snapshot: WindowSnapshot,
) -> bool {
    flight.started is Some && snapshot.coverage.usable() && listed(flight.entrances@, window)
}

/// `after` is `before` once a late picture of `window` was taken in: the reservation is gone and its
/// tile stands among the others.
pub open spec fn entered(
    before: RunningAnimation,
    after: RunningAnimation,
    window: WindowId,
    snapshot: WindowSnapshot,
) -> bool {
    let entering = first_at(before.entrances@, window);
    &&& only_composition_changed(before, after)
    &&& after.awaiting == before.awaiting
    &&& after.entrances@ == before.entrances@.remove(entering)
    &&& after.tiles@ == restacked(
        merged(before.tiles@, tile_for(before.entrances@[entering], snapshot)),
        before.focus,
    )
}

impl RunningAnimation {
    /// How far the flight has come at `now`; not started is no progress at all.
    pub open spec fn progress_at(&self, now: u64) -> Progress {
        match self.started {
            Some(started) => Progress {
                elapsed: if now >= started {
                    (now - started) as u64
                } else {
                    0
                },
                total: self.duration,
            },
            None => Progress { elapsed: 0, total: 1 },
        }
    }

    /// Progress from the clock, not a frame count, so a late frame skips instead of stretching.
    pub fn progress(&self, now: u64) -> (r: Progress)
        ensures
            r == self.progress_at(now),
    {
        match self.started {
            Some(started) => Progress {
                elapsed: if now >= started {
                    now - started
                } else {
                    0
                },
                total: self.duration,
            },
            None => Progress { elapsed: 0, total: 1 },
        }
    }

    /// Whether the clock has run out.
    pub fn is_done(&self, now: u64) -> (r: bool)
        ensures
            r == (self.started is Some && self.progress_at(now).at_least(100)),
    {
        self.started.is_some() && self.progress(now).reached(100)
    }

    /// Past the clock by more than the grace: lift whether or not the tiles report settled.
    pub fn overdue(&self, now: u64) -> (r: bool)
        ensures
            r == (self.started is Some && self.progress_at(now).elapsed > self.duration
                + LIFT_GRACE),
    {
        match self.started {
            Some(_) => self.progress(now).elapsed as u128 > self.duration as u128
                + LIFT_GRACE as u128,
            None => false,
        }
    }

    /// Time left before the overlay lifts.
    pub fn remaining(&self, now: u64) -> (r: u64)
        ensures
            r == self.progress_at(now).rest_of(self.duration as int),
            r <= self.duration,
    {
        self.progress(now).left_of(self.duration)
    }

    /// Where the flight is between composition and lift.
    pub open spec fn phase_of(&self) -> FlightPhase {
        if self.started is Some {
            FlightPhase::Moving
        } else if self.awaiting@.len() > 0 {
            FlightPhase::Holding
        } else {
            FlightPhase::FrameZero
        }
    }

    /// Where the flight is between composition and lift.
    pub fn phase(&self) -> (r: FlightPhase)
        ensures
            r == self.phase_of(),
    {
        if self.started.is_some() {
            FlightPhase::Moving
        } else if self.awaiting.len() > 0 {
            FlightPhase::Holding
        } else {
            FlightPhase::FrameZero
        }
    }

    /// The flight's progress, `None` until it starts moving.
    pub fn progress_if_started(&self, now: u64) -> (r: Option<Progress>)
        ensures
            r == (if self.started is Some {
                Some(self.progress_at(now))
            } else {
                None
            }),
    {
        if self.started.is_some() {
            Some(self.progress(now))
        } else {
            None
        }
    }

    /// Whether the destination refresh is due at `progress`; takes the one slot when it is.
    pub fn take_refresh(&mut self, progress: Progress) -> (r: bool)
        ensures
            r == (!old(self).destination_refreshed && progress.at_least(50) && old(
                self,
            ).started is Some),
            *final(self) == (RunningAnimation {
                destination_refreshed: old(self).destination_refreshed || r,
                ..*old(self)
            }),
    {
        let due: bool = !self.destination_refreshed && progress.reached(REFRESH_DESTINATION_AT)
            && capture_work_allowed(self.phase(), CaptureKind::Refresh);
        if due {
            self.destination_refreshed = true;
        }
        due
    }

    /// What `window` is doing in this flight: entrances come before holds, holds before tiles.
    pub open spec fn state_of(&self, window: WindowId, snapshot: WindowSnapshot) -> TileState {
        if listed(self.entrances@, window) {
            TileState::Awaiting
        } else if listed(self.awaiting@, window) {
            TileState::Reveal {
                fits: snapshot.suits(self.awaiting@[first_at(self.awaiting@, window)].1),
            }
        } else if !listed(self.tiles@, window) {
            TileState::NotTiled
        } else {
            let tile = self.tiles@[first_at(self.tiles@, window)];
            let fits = snapshot.suits(tile.to.size);
            let resizing = resizes(tile.from.size, tile.to.size);
            if outgrown(tile.snapshot.coverage.covered, tile.to.size) {
                TileState::Reveal { fits }
            } else if self.refresh_targets@.contains(window) {
                TileState::MovingRefreshTarget { fits, resizing }
            } else {
                TileState::Moving { fits, resizing }
            }
        }
    }

    /// What `window` is doing in this flight when a picture of it lands.
    pub fn tile_state(&self, window: WindowId, snapshot: &WindowSnapshot) -> (r: TileState)
        ensures
            r == self.state_of(window, *snapshot),
    {
        if holds(&self.entrances, window) {
            return TileState::Awaiting;
        }
        if let Some(i) = find(&self.awaiting, window) {
            return TileState::Reveal { fits: snapshot.fits(self.awaiting[i].1) };
        }
        match find(&self.tiles, window) {
            None => TileState::NotTiled,
            Some(i) => {
                let tile: OverlayTile = self.tiles[i];
                let fits: bool = snapshot.fits(tile.to.size);
                if outgrows(tile.snapshot.coverage.covered, tile.to.size) {
                    return TileState::Reveal { fits };
                }
                let resizing: bool = is_a_resize(tile.from.size, tile.to.size);
                if contains(&self.refresh_targets, window) {
                    TileState::MovingRefreshTarget { fits, resizing }
                } else {
                    TileState::Moving { fits, resizing }
                }
            },
        }
    }

    /// A later pass carrying reveal holds. A grow can only extend a hold, never stop a moving
    /// flight. Returns the frames a held merge must apply now, so the app can rerender.
    pub fn extend_hold(
        &mut self,
        awaiting: &Vec<(WindowId, Size)>,
        in_flight: bool,
        duration: u64,
        now: u64,
    ) -> (r: Option<Vec<(WindowId, Rect)>>)
        requires
            now + HOLD_CAP <= u64::MAX,
        ensures
            r is Some <==> !in_flight && awaiting@.len() > 0,
            r is None ==> *final(self) == *old(self),
            r matches Some(frames) ==> {
                &&& frames@ == old(self).final_frames@
                &&& final(self).awaiting@ == upserted_all(old(self).awaiting@, awaiting@)
                &&& final(self).hold_deadline == (if old(self).hold_deadline is Some {
                    old(self).hold_deadline
                } else {
                    Some((now + HOLD_CAP) as u64)
                })
                &&& *final(self) == (RunningAnimation {
                    frames_applied: true,
                    awaiting: final(self).awaiting,
                    hold_deadline: final(self).hold_deadline,
                    ..*old(self)
                })
            },
    {
        if in_flight || awaiting.len() == 0 {
            return None;
        }
        upsert_all(&mut self.awaiting, awaiting);
        if self.hold_deadline.is_none() {
            self.hold_deadline = Some(now + reveal_hold_limit(duration));
        }
        self.frames_applied = true;
        Some(copied(&self.final_frames))
    }

    /// The frames the flight owes at `progress`: all of them, once, at the apply point.
    pub fn frames_due(&mut self, progress: Progress) -> (r: Option<Vec<(WindowId, Rect)>>)
        requires
            old(self).apply_at <= 100,
        ensures
            r is Some <==> progress.at_least(old(self).apply_at as int) && !old(
                self,
            ).frames_applied,
            r matches Some(frames) ==> frames@ == old(self).final_frames@,
            *final(self) == (RunningAnimation {
                frames_applied: old(self).frames_applied || r is Some,
                ..*old(self)
            }),
    {
        if !progress.reached(self.apply_at) || self.frames_applied {
            return None;
        }
        self.frames_applied = true;
        Some(copied(&self.final_frames))
    }

    /// Takes a settled picture for a window this flight is holding for. The picture must fit the
    /// destination, for entrances too. A window that is not held but stands composed at frame zero
    /// takes the picture onto its tile.
    pub fn claim(&mut self, window: WindowId, snapshot: &WindowSnapshot) -> (r: Option<Claimed>)
        ensures
            r == claim_rule(*old(self), window, *snapshot),
            claims(*old(self), *final(self), window, *snapshot),
    {
        if self.started.is_some() {
            return None;
        }
        match find(&self.awaiting, window) {
            None => {
                // Not a hold: a spawn-frame newcomer whose chase landed before the flight moved.
                match find(&self.tiles, window) {
                    None => None,
                    Some(i) => {
                        let mut tile: OverlayTile = self.tiles[i];
                        if !snapshot.is_usable() || !snapshot.fits(tile.to.size) {
                            return None;
                        }
                        tile.snapshot = *snapshot;
                        self.tiles.set(i, tile);
                        Some(Claimed::Refreshed)
                    },
                }
            },
            Some(position) => {
                let (_, size): (WindowId, Size) = self.awaiting[position];
                if !snapshot.is_usable() || !snapshot.fits(size) {
                    return None;
                }
                let gone: (WindowId, Size) = self.awaiting.remove(position);
                match find(&self.entrances, window) {
                    Some(at) => {
                        let entrance: PendingEntrance = self.entrances.remove(at);
                        let admitted: Admitted = self.merge(entrance_tile(&entrance, snapshot));
                        let focus: Option<WindowId> = self.focus;
                        restack(&mut self.tiles, focus);
                    },
                    None => {
                        if let Some(i) = find(&self.tiles, window) {
                            let mut tile: OverlayTile = self.tiles[i];
                            tile.snapshot = *snapshot;
                            self.tiles.set(i, tile);
                        }
                    },
                }
                if self.awaiting.len() == 0 {
                    Some(Claimed::Released)
                } else {
                    Some(Claimed::Held)
                }
            },
        }
    }

    /// Takes the first picture of a reserved entrance after the flight started moving. Returns the
    /// banded tile and what is left of the flight for it to travel.
    pub fn let_in(&mut self, window: WindowId, snapshot: &WindowSnapshot, now: u64) -> (r: Option<
        (OverlayTile, u64),
    >)
        ensures
            r is Some <==> enters(*old(self), window, *snapshot),
            r is None ==> *final(self) == *old(self),
            r matches Some((tile, travel)) ==> {
                &&& entered(*old(self), *final(self), window, *snapshot)
                &&& Some(tile) == lookup(final(self).tiles@, window)
                &&& travel == old(self).progress_at(now).rest_of(old(self).duration as int)
                &&& travel <= old(self).duration
            },
    {
        if self.started.is_none() || !snapshot.is_usable() {
            return None;
        }
        match find(&self.entrances, window) {
            None => None,
            Some(position) => {
                let entrance: PendingEntrance = self.entrances.remove(position);
                let ghost before = self.tiles@;
                let admitted: Admitted = self.merge(entrance_tile(&entrance, snapshot));
                let focus: Option<WindowId> = self.focus;
                proof {
                    merged_lists(before, tile_for(entrance, *snapshot));
                    restacking_keeps_windows(self.tiles@, focus, window);
                }
                restack(&mut self.tiles, focus);
                let travel: u64 = late_join_duration(self.duration, self.progress(now));
                match get(&self.tiles, window) {
                    Some(tile) => Some((tile, travel)),
                    None => None,
                }
            },
        }
    }

    /// After an in-flight merge: stale frames are sent again at the apply point.
    pub fn absorb_in_flight_change(&mut self, changed: bool, frames_changed: bool)
        ensures
            *final(self) == (RunningAnimation {
                frames_applied: old(self).frames_applied && !changed && !frames_changed,
                ..*old(self)
            }),
    {
        if mark_stale_on_untiled_change(changed, frames_changed) {
            self.frames_applied = false;
        }
    }

    /// Folds one later pass into the flight's tiles and focus.
    pub fn merge_pass(&mut self, tiles: &Vec<OverlayTile>, focus: Option<WindowId>) -> (r: Vec<
        (WindowId, Admitted),
    >)
        ensures
            r@ == outcomes_of(old(self).tiles@, tiles@),
            final(self).focus == (if focus is Some {
                focus
            } else {
                old(self).focus
            }),
            final(self).tiles@ == restacked(
                merged_all(old(self).tiles@, tiles@),
                final(self).focus,
            ),
            *final(self) == (RunningAnimation {
                tiles: final(self).tiles,
                focus: final(self).focus,
                ..*old(self)
            }),
    {
        if focus.is_some() {
            self.focus = focus;
        }
        let ghost start = *self;
        let mut outcomes: Vec<(WindowId, Admitted)> = Vec::new();
        let mut i: usize = 0;
        while i < tiles.len()
            invariant
                i <= tiles.len(),
                only_tiles_changed(start, *self),
                self.tiles@ == merged_all(start.tiles@, tiles@.take(i as int)),
                outcomes@ == outcomes_of(start.tiles@, tiles@.take(i as int)),
            decreases tiles.len() - i,
        {
            assert(tiles@.take(i + 1).drop_last() == tiles@.take(i as int));
            let tile: OverlayTile = tiles[i];
            let admitted: Admitted = self.merge(tile);
            outcomes.push((tile.window, admitted));
            i += 1;
        }
        assert(tiles@.take(tiles@.len() as int) == tiles@);
        let focus: Option<WindowId> = self.focus;
        restack(&mut self.tiles, focus);
        outcomes
    }

    /// Adds or retargets one window without disturbing anything already moving.
    pub fn merge(&mut self, tile: OverlayTile) -> (r: Admitted)
        ensures
            r == merge_of(old(self).tiles@, tile),
            final(self).tiles@ == merged(old(self).tiles@, tile),
            only_tiles_changed(*old(self), *final(self)),
    {
        let at: Option<usize> = find(&self.tiles, tile.window);
        let action: Admitted = merge_action(
            match at {
                Some(i) => Some(self.tiles[i].to),
                None => None,
            },
            tile.to,
        );
        match at {
            Some(i) => {
                if let Admitted::Retargeted = action {
                    let from: Rect = self.tiles[i].from;
                    let mut bent: OverlayTile = tile;
                    bent.from = from;
                    self.tiles.set(i, bent);
                }
            },
            None => {
                self.tiles.push(tile);
            },
        }
        action
    }
}

/// Once merged, a tile's window is among the tiles.
pub proof fn merged_lists(tiles: Seq<OverlayTile>, tile: OverlayTile)
    ensures
        listed(merged(tiles, tile), tile.window),
{
    let out = merged(tiles, tile);
    first_at_finds(tiles, tile.window);
    let at = first_at(tiles, tile.window);
    if listed(tiles, tile.window) {
        assert(out[at].key() == tile.window);
    } else {
        assert(out[tiles.len() as int].key() == tile.window);
    }
}

/// Putting tiles at their places keeps the windows they belong to.
pub proof fn restacking_keeps_windows(
    tiles: Seq<OverlayTile>,
    focus: Option<WindowId>,
    window: WindowId,
)
    ensures
        listed(restacked(tiles, focus), window) == listed(tiles, window),
{
    let out = restacked(tiles, focus);
    if listed(tiles, window) {
        let i = choose|i: int| 0 <= i < tiles.len() && #[trigger] tiles[i].key() == window;
        assert(out[i].key() == window);
    }
    if listed(out, window) {
        let i = choose|i: int| 0 <= i < out.len() && #[trigger] out[i].key() == window;
        assert(tiles[i].key() == window);
    }
}

/// A pass that repeats the destinations a flight already has changes no tile.
pub proof fn a_redundant_pass_changes_nothing(tiles: Seq<OverlayTile>, tile: OverlayTile)
    requires
        listed(tiles, tile.window),
        same_frame(tiles[first_at(tiles, tile.window)].to, tile.to),
    ensures
        merged(tiles, tile) == tiles,
        merge_of(tiles, tile) == Admitted::Redundant,
{
}

/// A retargeted window keeps the start it had and takes the new destination; no other tile moves.
pub proof fn a_retarget_keeps_the_start(tiles: Seq<OverlayTile>, tile: OverlayTile, i: int)
    requires
        merge_of(tiles, tile) == Admitted::Retargeted,
        0 <= i < tiles.len(),
    ensures
        merged(tiles, tile).len() == tiles.len(),
        i != first_at(tiles, tile.window) ==> merged(tiles, tile)[i] == tiles[i],
        i == first_at(tiles, tile.window) ==> {
            &&& merged(tiles, tile)[i].from == tiles[i].from
            &&& merged(tiles, tile)[i].to == tile.to
            &&& merged(tiles, tile)[i].snapshot == tile.snapshot
        },
{
    first_at_finds(tiles, tile.window);
}

/// One window, one tile: merging keeps that.
pub proof fn merging_keeps_one_tile_each(tiles: Seq<OverlayTile>, tile: OverlayTile)
    requires
        one_each(tiles),
    ensures
        one_each(merged(tiles, tile)),
{
    let out = merged(tiles, tile);
    first_at_finds(tiles, tile.window);
    assert forall|i: int, j: int| 0 <= i < j < out.len() implies #[trigger] out[i].key()
        != #[trigger] out[j].key() by {
        if j < tiles.len() {
            assert(out[i].key() == tiles[i].key() && out[j].key() == tiles[j].key());
        } else {
            assert(out[i] == tiles[i]);
            assert(tiles[i].key() != tile.window);
        }
    }
}

/// The last hold claimed is what releases a flight, and a claim never starts it.
pub proof fn only_the_last_claim_releases(
    flight: RunningAnimation,
    window: WindowId,
    snapshot: WindowSnapshot,
)
    ensures
        claim_rule(flight, window, snapshot) == Some(Claimed::Released)
            ==> flight.awaiting@.len() == 1,
        claim_rule(flight, window, snapshot) == Some(Claimed::Held) ==> flight.awaiting@.len() > 1,
        flight.started is Some ==> claim_rule(flight, window, snapshot) is None,
        !snapshot.coverage.usable() ==> claim_rule(flight, window, snapshot) is None,
{
    first_at_finds(flight.awaiting@, window);
}

/// A window entering late grows in from its own left edge to its whole destination, in front and
/// focused, drawn from the picture that landed.
pub proof fn an_entrance_grows_to_its_destination(
    entrance: PendingEntrance,
    snapshot: WindowSnapshot,
)
    ensures
        ({
            let tile = tile_for(entrance, snapshot);
            &&& tile.window == entrance.window && tile.floating == entrance.floating
            &&& tile.to == entrance.to && tile.snapshot == snapshot
            &&& tile.from.origin == entrance.to.origin
            &&& tile.from.size.width == 0 && tile.from.size.height == entrance.to.size.height
            &&& tile.server_order == Some(0usize) && tile.focused && !tile.companion
        }),
{
}

/// After a merge the window's tile ends where the pass says, up to a tenth of a point; a tile that
/// joins is taken as it is, behind the others, and no other window's tile changes.
pub proof fn a_merged_window_ends_where_the_pass_says(
    tiles: Seq<OverlayTile>,
    tile: OverlayTile,
    i: int,
)
    ensures
        ({
            let out = merged(tiles, tile);
            let found = lookup(out, tile.window);
            &&& found is Some && same_frame(found->0.to, tile.to)
            &&& !listed(tiles, tile.window) ==> out == tiles.push(tile) && merge_of(tiles, tile)
                == Admitted::Joined
            &&& listed(tiles, tile.window) ==> out.len() == tiles.len() && found->0.from == lookup(
                tiles,
                tile.window,
            )->0.from
            &&& listed(tiles, tile.window) && !same_frame(lookup(tiles, tile.window)->0.to, tile.to)
                ==> {
                &&& merge_of(tiles, tile) == Admitted::Retargeted
                &&& found->0.to == tile.to && found->0.snapshot == tile.snapshot
                &&& found->0.floating == tile.floating && found->0.focused == tile.focused
                &&& found->0.server_order == tile.server_order && found->0.companion
                    == tile.companion
            }
            &&& 0 <= i < tiles.len() && tiles[i].window != tile.window ==> out[i] == tiles[i]
        }),
{
    let out = merged(tiles, tile);
    first_at_finds(tiles, tile.window);
    let at = first_at(tiles, tile.window);
    assert(out[at].key() == tile.window);
    assert(listed(out, tile.window));
    assert forall|k: int| 0 <= k < at implies #[trigger] out[k].key() != tile.window by {
        assert(out[k] == tiles[k]);
        assert(tiles[k].key() != tile.window);
    }
    crate::keyed::first_at_is(out, tile.window, at);
    if 0 <= i < tiles.len() && i == at {
        assert(tiles[i].key() == tile.window);
    }
}

/// Of a whole pass: one outcome per tile, in order, under its window, and the window of its last tile
/// ends where that says.
pub proof fn a_pass_is_merged_tile_by_tile(
    tiles: Seq<OverlayTile>,
    more: Seq<OverlayTile>,
    i: int,
)
    requires
        0 <= i < more.len(),
    ensures
        outcomes_of(tiles, more).len() == more.len(),
        outcomes_of(tiles, more)[i].0 == more[i].window,
        outcomes_of(tiles, more)[i].1 == merge_of(merged_all(tiles, more.take(i)), more[i]),
        merged_all(tiles, more.take(i + 1)) == merged(merged_all(tiles, more.take(i)), more[i]),
        listed(merged_all(tiles, more), more.last().window),
        same_frame(
            lookup(merged_all(tiles, more), more.last().window)->0.to,
            more.last().to,
        ),
    decreases more.len(),
{
    let rest = more.drop_last();
    assert(more.take(i + 1).drop_last() =~= more.take(i));
    assert(more.take(i + 1).last() == more[i]);
    a_merged_window_ends_where_the_pass_says(merged_all(tiles, rest), more.last(), 0);
    if i < rest.len() {
        a_pass_is_merged_tile_by_tile(tiles, rest, i);
        assert(rest.take(i) =~= more.take(i));
    } else {
        assert(more.take(i) =~= rest);
        if rest.len() > 0 {
            a_pass_is_merged_tile_by_tile(tiles, rest, 0);
        } else {
            assert(outcomes_of(tiles, rest).len() == 0);
        }
    }
}

/// A window the pass does not name keeps its tile.
pub proof fn a_window_not_in_the_pass_keeps_its_tile(
    tiles: Seq<OverlayTile>,
    more: Seq<OverlayTile>,
    i: int,
)
    requires
        0 <= i < tiles.len(),
        !listed(more, tiles[i].window),
    ensures
        merged_all(tiles, more).len() >= tiles.len(),
        merged_all(tiles, more)[i] == tiles[i],
    decreases more.len(),
{
    if more.len() > 0 {
        let rest = more.drop_last();
        assert(!listed(rest, tiles[i].window)) by {
            if listed(rest, tiles[i].window) {
                let k = choose|k: int|
                    0 <= k < rest.len() && #[trigger] rest[k].key() == tiles[i].window;
                assert(more[k].key() == tiles[i].window);
            }
        }
        a_window_not_in_the_pass_keeps_its_tile(tiles, rest, i);
        assert(more[more.len() - 1].key() != tiles[i].window);
        a_merged_window_ends_where_the_pass_says(merged_all(tiles, rest), more.last(), i);
    }
}

/// A picture put on a window's tile changes that tile's picture and nothing else.
pub proof fn a_new_picture_moves_nothing(
    tiles: Seq<OverlayTile>,
    window: WindowId,
    snapshot: WindowSnapshot,
    i: int,
)
    requires
        0 <= i < tiles.len(),
    ensures
        ({
            let out = rewearing(tiles, window, snapshot);
            &&& out.len() == tiles.len()
            &&& out[i].window == tiles[i].window && out[i].from == tiles[i].from
            &&& out[i].to == tiles[i].to && out[i].depth == tiles[i].depth
            &&& out[i].floating == tiles[i].floating && out[i].focused == tiles[i].focused
            &&& tiles[i].window != window ==> out[i] == tiles[i]
            &&& listed(tiles, window) ==> lookup(out, window) is Some && lookup(
                out,
                window,
            )->0.snapshot == snapshot
        }),
{
    let out = rewearing(tiles, window, snapshot);
    first_at_finds(tiles, window);
    let at = first_at(tiles, window);
    if listed(tiles, window) {
        assert(out[at].key() == window);
        assert(listed(out, window));
        assert forall|k: int| 0 <= k < at implies #[trigger] out[k].key() != window by {
            assert(tiles[k].key() != window);
        }
        crate::keyed::first_at_is(out, window, at);
        if tiles[i].window != window {
            assert(i != at);
        }
    }
}

/// What a settled picture is worth before a flight starts: a usable one of the size held for gives up
/// that hold, and the last hold releases the flight; of a window not held, one of its tile's final
/// size refreshes the tile; anything else is left.
pub proof fn a_claim_takes_a_picture_that_fits(
    flight: RunningAnimation,
    window: WindowId,
    snapshot: WindowSnapshot,
)
    ensures
        ({
            let claim = claim_rule(flight, window, snapshot);
            let held = lookup(flight.awaiting@, window);
            let tile = lookup(flight.tiles@, window);
            let can = flight.started is None && snapshot.coverage.usable();
            &&& claim == Some(Claimed::Released) <==> can && held is Some && snapshot.suits(
                (held->0).1,
            ) && flight.awaiting@.len() == 1
            &&& claim == Some(Claimed::Held) <==> can && held is Some && snapshot.suits((held->0).1)
                && flight.awaiting@.len() > 1
            &&& claim == Some(Claimed::Refreshed) <==> can && held is None && tile is Some
                && snapshot.suits(tile->0.to.size)
        }),
{
    first_at_finds(flight.awaiting@, window);
}

/// A claim gives up one hold and no more, and leaves the flight's clock, frames and focus alone.
pub proof fn a_claim_gives_up_one_hold(
    flight: &mut RunningAnimation,
    window: WindowId,
    snapshot: WindowSnapshot,
    claimed: Option<Claimed>,
)
    requires
        call_ensures(RunningAnimation::claim, (flight, window, &snapshot), claimed),
    ensures
        final(flight).started == old(flight).started,
        final(flight).final_frames == old(flight).final_frames,
        final(flight).frames_applied == old(flight).frames_applied,
        final(flight).duration == old(flight).duration,
        final(flight).focus == old(flight).focus,
        final(flight).hold_deadline == old(flight).hold_deadline,
        final(flight).apply_at == old(flight).apply_at && final(flight).plan == old(flight).plan,
        final(flight).harvested == old(flight).harvested,
        final(flight).destination_refreshed == old(flight).destination_refreshed,
        final(flight).refresh_targets == old(flight).refresh_targets,
        claimed is None ==> *final(flight) == *old(flight),
        claimed == Some(Claimed::Refreshed) ==> final(flight).awaiting == old(flight).awaiting
            && final(flight).entrances == old(flight).entrances && final(flight).tiles@.len() == old(flight).tiles@.len(),
        claimed == Some(Claimed::Held) || claimed == Some(Claimed::Released) ==> final(flight).awaiting@.len() + 1 == old(flight).awaiting@.len(),
        claimed == Some(Claimed::Released) ==> final(flight).awaiting@.len() == 0,
        claimed == Some(Claimed::Released) && listed(old(flight).entrances@, window) ==> listed(
            final(flight).tiles@,
            window,
        ) && final(flight).entrances@.len() + 1 == old(flight).entrances@.len(),
{
    first_at_finds(old(flight).awaiting@, window);
    first_at_finds(old(flight).entrances@, window);
    first_at_finds(old(flight).tiles@, window);
    if listed(old(flight).entrances@, window) {
        let entrance = old(flight).entrances@[first_at(old(flight).entrances@, window)];
        let tile = tile_for(entrance, snapshot);
        merged_lists(old(flight).tiles@, tile);
        restacking_keeps_windows(merged(old(flight).tiles@, tile), old(flight).focus, window);
    }
}

/// A late picture joins a flight in motion only where a place is reserved for its window; the tile
/// grows to the reserved place, and travels for what is left of the flight.
pub proof fn a_late_entrance_takes_its_place(
    flight: &mut RunningAnimation,
    window: WindowId,
    snapshot: WindowSnapshot,
    now: u64,
    joined: Option<(OverlayTile, u64)>,
)
    requires
        call_ensures(RunningAnimation::let_in, (flight, window, &snapshot, now), joined),
    ensures
        joined is Some <==> old(flight).started is Some && snapshot.coverage.usable() && listed(
            old(flight).entrances@,
            window,
        ),
        joined is None ==> *final(flight) == *old(flight),
        joined matches Some((tile, travel)) ==> {
            &&& tile.window == window
            &&& same_frame(tile.to, lookup(old(flight).entrances@, window)->0.to)
            &&& travel == old(flight).progress_at(now).rest_of(old(flight).duration as int)
            &&& final(flight).entrances@.len() + 1 == old(flight).entrances@.len()
            &&& final(flight).awaiting == old(flight).awaiting
            &&& final(flight).final_frames == old(flight).final_frames
            &&& final(flight).duration == old(flight).duration
            &&& final(flight).focus == old(flight).focus && final(flight).plan == old(flight).plan
            &&& final(flight).hold_deadline == old(flight).hold_deadline
            &&& final(flight).harvested == old(flight).harvested
            &&& final(flight).started == old(flight).started
        },
{
    first_at_finds(old(flight).entrances@, window);
    if joined is Some {
        let at = first_at(old(flight).entrances@, window);
        let entrance = old(flight).entrances@[at];
        assert(entrance.key() == window);
        let tile = tile_for(entrance, snapshot);
        let out = merged(old(flight).tiles@, tile);
        a_merged_window_ends_where_the_pass_says(old(flight).tiles@, tile, 0);
        let shown = restacked(out, old(flight).focus);
        first_at_finds(out, window);
        let p = first_at(out, window);
        assert forall|k: int| 0 <= k < p implies #[trigger] shown[k].key() != window by {
            assert(out[k].key() != window);
        }
        assert(shown[p].key() == window);
        crate::keyed::first_at_is(shown, window, p);
        assert(listed(shown, window));
    }
}

/// A flight's progress is the time since it started, out of its duration; a flight that has not
/// started has made none.
pub proof fn a_flight_goes_by_the_clock(
    flight: RunningAnimation,
    now: u64,
    done: bool,
    overdue: bool,
    progress: Option<Progress>,
    left: u64,
)
    requires
        call_ensures(RunningAnimation::is_done, (&flight, now), done),
        call_ensures(RunningAnimation::overdue, (&flight, now), overdue),
        call_ensures(RunningAnimation::progress_if_started, (&flight, now), progress),
        call_ensures(RunningAnimation::remaining, (&flight, now), left),
    ensures
        flight.started is None ==> !done && !overdue && progress is None,
        flight.started matches Some(started) ==> {
            &&& progress is Some && progress->0.total == flight.duration
            &&& now >= started ==> progress->0.elapsed == now - started
            &&& now < started ==> progress->0.elapsed == 0
            &&& done <==> now - started >= flight.duration || flight.duration == 0
            &&& overdue <==> now - started > flight.duration + 350_000_000
            &&& done && flight.duration > 0 ==> left == 0
        },
        overdue ==> done,
{
    if let Some(started) = flight.started {
        crate::time::progress_is_the_share_of_the_time(flight.progress_at(now), 100);
        if flight.duration > 0 {
            crate::time::what_is_left_is_in_proportion(flight.progress_at(now), flight.duration);
        }
    }
}

/// A flight moves once it has started; until then it holds while anything is awaited, and otherwise
/// stands at frame zero. It is never idle.
pub proof fn a_flight_holds_while_something_is_awaited(flight: RunningAnimation)
    ensures
        flight.phase_of() == FlightPhase::Moving <==> flight.started is Some,
        flight.phase_of() == FlightPhase::Holding <==> flight.started is None
            && flight.awaiting@.len() > 0,
        flight.phase_of() == FlightPhase::FrameZero <==> flight.started is None
            && flight.awaiting@.len() == 0,
{
}

/// The ends of a focus change are recaptured once, halfway, while the flight moves.
pub proof fn the_destination_is_refreshed_once(
    flight: &mut RunningAnimation,
    progress: Progress,
    due: bool,
)
    requires
        call_ensures(RunningAnimation::take_refresh, (flight, progress), due),
    ensures
        due ==> final(flight).destination_refreshed && !old(flight).destination_refreshed,
        !due ==> *final(flight) == *old(flight),
        progress.total > 0 && progress.elapsed <= progress.total ==> (due <==> !old(flight).destination_refreshed && old(flight).started is Some && 2 * progress.elapsed
            >= progress.total),
        final(flight).tiles == old(flight).tiles,
        final(flight).started == old(flight).started,
{
}

/// What a landed picture finds its window doing: waiting for its first picture, waiting for one of
/// another size, moving, or not in the flight at all.
pub proof fn a_landed_picture_finds_its_window(
    flight: RunningAnimation,
    window: WindowId,
    snapshot: WindowSnapshot,
)
    ensures
        ({
            let state = flight.state_of(window, snapshot);
            let held = lookup(flight.awaiting@, window);
            let tile = lookup(flight.tiles@, window);
            &&& state == TileState::Awaiting <==> listed(flight.entrances@, window)
            &&& state == TileState::NotTiled <==> !listed(flight.entrances@, window) && held is None
                && tile is None
            &&& !listed(flight.entrances@, window) && held is Some ==> state == (TileState::Reveal {
                fits: snapshot.suits((held->0).1),
            })
            &&& !listed(flight.entrances@, window) && held is None && tile is Some ==> {
                let fits = snapshot.suits(tile->0.to.size);
                let resizing = resizes(tile->0.from.size, tile->0.to.size);
                let wanting = outgrown(tile->0.snapshot.coverage.covered, tile->0.to.size);
                &&& wanting ==> state == (TileState::Reveal { fits })
                &&& !wanting && flight.refresh_targets@.contains(window) ==> state == (
                TileState::MovingRefreshTarget { fits, resizing })
                &&& !wanting && !flight.refresh_targets@.contains(window) ==> state == (
                TileState::Moving { fits, resizing })
            }
        }),
{
}

/// A later pass can lengthen what a standing flight waits for, never its deadline, and never stops a
/// flight in motion; the frames go out at once.
pub proof fn a_hold_is_extended_at_a_standstill(
    flight: &mut RunningAnimation,
    awaiting: Vec<(WindowId, Size)>,
    in_flight: bool,
    duration: u64,
    now: u64,
    frames: Option<Vec<(WindowId, Rect)>>,
    i: int,
)
    requires
        call_ensures(
            RunningAnimation::extend_hold,
            (flight, &awaiting, in_flight, duration, now),
            frames,
        ),
        now + 300_000_000 <= u64::MAX,
        0 <= i < awaiting@.len(),
        one_each(old(flight).awaiting@),
    ensures
        in_flight ==> frames is None && *final(flight) == *old(flight),
        !in_flight ==> {
            &&& frames is Some && frames->0@ == old(flight).final_frames@
            &&& final(flight).frames_applied
            &&& listed(final(flight).awaiting@, awaiting@[i].0)
            &&& old(flight).hold_deadline is Some ==> final(flight).hold_deadline == old(flight).hold_deadline
            &&& old(flight).hold_deadline is None ==> final(flight).hold_deadline == Some(
                (now + 300_000_000) as u64,
            )
            &&& final(flight).started == old(flight).started
            &&& final(flight).tiles == old(flight).tiles
        },
{
    if !in_flight {
        crate::keyed::upserting_all_lists_both(
            old(flight).awaiting@,
            awaiting@,
            awaiting@[i].0,
        );
        assert(awaiting@[i].key() == awaiting@[i].0);
    }
}

/// All frames are owed at once, once, when the flight is far enough along; a change after that makes
/// them owed again.
pub proof fn frames_are_owed_at_the_apply_point(
    flight: &mut RunningAnimation,
    progress: Progress,
    frames: Option<Vec<(WindowId, Rect)>>,
)
    requires
        call_ensures(RunningAnimation::frames_due, (flight, progress), frames),
        old(flight).apply_at <= 100,
    ensures
        frames is Some ==> frames->0@ == old(flight).final_frames@ && !old(flight).frames_applied
            && final(flight).frames_applied,
        frames is None ==> *final(flight) == *old(flight),
        progress.total > 0 && progress.elapsed <= progress.total ==> (frames is Some <==> !old(flight).frames_applied && 100 * progress.elapsed >= old(flight).apply_at * progress.total),
        final(flight).final_frames == old(flight).final_frames,
        final(flight).tiles == old(flight).tiles,
{
}

/// Frames already out are owed again exactly when the tiles or the frames changed.
pub proof fn a_change_in_flight_owes_the_frames_again(
    flight: &mut RunningAnimation,
    changed: bool,
    frames_changed: bool,
    done: (),
)
    requires
        call_ensures(
            RunningAnimation::absorb_in_flight_change,
            (flight, changed, frames_changed),
            done,
        ),
    ensures
        final(flight).frames_applied <==> old(flight).frames_applied && !changed && !frames_changed,
        final(flight).final_frames == old(flight).final_frames,
        final(flight).tiles == old(flight).tiles,
        final(flight).started == old(flight).started,
{
}

/// A pass that names a focus changes it, and one that names none keeps it; nothing else of the flight
/// changes but its tiles.
pub proof fn a_pass_names_the_focus(
    flight: &mut RunningAnimation,
    tiles: Vec<OverlayTile>,
    focus: Option<WindowId>,
    outcomes: Vec<(WindowId, Admitted)>,
    i: int,
)
    requires
        call_ensures(RunningAnimation::merge_pass, (flight, &tiles, focus), outcomes),
    ensures
        focus is Some ==> final(flight).focus == focus,
        focus is None ==> final(flight).focus == old(flight).focus,
        final(flight).started == old(flight).started,
        final(flight).final_frames == old(flight).final_frames,
        final(flight).awaiting == old(flight).awaiting,
        final(flight).entrances == old(flight).entrances,
        tiles@.len() == 0 ==> outcomes@.len() == 0 && final(flight).tiles@.len() == old(flight).tiles@.len(),
        0 <= i < tiles@.len() ==> outcomes@.len() == tiles@.len() && outcomes@[i].0
            == tiles@[i].window,
{
    if 0 <= i < tiles@.len() {
        a_pass_is_merged_tile_by_tile(old(flight).tiles@, tiles@, i);
    }
}

/// A window held for is held at the size of the latest pass that names it; one the pass does not name
/// is held as before.
pub proof fn a_hold_is_at_the_latest_size(
    flight: &mut RunningAnimation,
    awaiting: Vec<(WindowId, Size)>,
    duration: u64,
    now: u64,
    frames: Option<Vec<(WindowId, Rect)>>,
    at: int,
    window: WindowId,
)
    requires
        call_ensures(
            RunningAnimation::extend_hold,
            (flight, &awaiting, false, duration, now),
            frames,
        ),
        now + 300_000_000 <= u64::MAX,
        one_each(old(flight).awaiting@),
        one_each(awaiting@),
        0 <= at < awaiting@.len(),
    ensures
        lookup(final(flight).awaiting@, awaiting@[at].0) == Some(awaiting@[at]),
        !listed(awaiting@, window) ==> lookup(final(flight).awaiting@, window) == lookup(
            old(flight).awaiting@,
            window,
        ),
{
    assert forall|j: int| at < j < awaiting@.len() implies #[trigger] awaiting@[j].key()
        != awaiting@[at].key() by {}
    crate::keyed::the_latest_item_wins(old(flight).awaiting@, awaiting@, at);
    crate::keyed::upserting_all_lists_both(old(flight).awaiting@, awaiting@, window);
}

} // verus!
