//! The flight engine from composition to the quiet period after the lift.
use rini::fit::{Coverage, Extent};
use rini::flight::chase::{Chase, ChaseStep};
use rini::flight::compose::{
    anchors_of, AnimationRequest, Companions, Composition, ServerView, SurfaceComposition,
};
use rini::flight::decision::{
    FlightPhase, PendingEntrance, SnapshotTarget, SwapReason, APPLY_FRAMES_AT, COALESCE_WINDOW,
    HOLD_CAP, LIFT_GRACE, REVEAL_CHASE_ATTEMPTS,
};
use rini::flight::engine::{
    debug_slide, warm_cache, Begun, Display, FlightEngine, Group, GroupStart, Offer, Start,
};
use rini::flight::group::{
    layout_group, pass_captures, pass_tiles, surface_animated, surface_group, PassVerdict,
};
use rini::flight::lift::Backdrop;
use rini::flight::plan::{FlightPlan, GroupKey, RigidGroup, RigidMember};
use rini::flight::stack::OverlayTile;
use rini::geometry::{Point, Rect, Size};
use rini::ids::{WindowId, WindowServerId};
use rini::snapshot::{SnapshotImage, SnapshotSource, WindowSnapshot};
use rini::surface::{SurfaceWindow, TileGeometry};

/// The moment the tests run at.
const NOW: u64 = 100_000_000_000;

const DISPLAY: Rect = Rect {
    origin: Point { x: 0, y: 0 },
    size: Size { width: 1_728_000, height: 1_117_000 },
};

fn rect(x: i64, y: i64, w: i64, h: i64) -> Rect {
    Rect::new(Point::new(x * 1000, y * 1000), Size::new(w * 1000, h * 1000))
}

fn ms(milliseconds: u64) -> u64 {
    milliseconds * 1_000_000
}

fn wid(idx: u32) -> WindowId {
    WindowId::new(1, idx)
}

fn left() -> Rect {
    rect(4, 32, 859, 1081)
}

fn right() -> Rect {
    rect(867, 32, 859, 1081)
}

fn snapshot(size: Size) -> WindowSnapshot {
    WindowSnapshot {
        image: SnapshotImage::Bitmap(1),
        coverage: Coverage {
            covered: Extent::points((size.width, size.height)),
            window: (size.width, size.height),
        },
        source: SnapshotSource::ScreenCaptureKit,
        dressing: None,
        taken: NOW,
    }
}

fn tile(window: WindowId, from: Rect, to: Rect) -> OverlayTile {
    OverlayTile {
        window,
        from,
        to,
        snapshot: snapshot(to.size),
        floating: false,
        server_order: None,
        depth: 0,
        companion: false,
        focused: false,
    }
}

fn request(idx: u32, from: Rect, to: Rect) -> AnimationRequest {
    AnimationRequest {
        window: wid(idx),
        server_id: WindowServerId::new(idx),
        from,
        to,
        floating: false,
    }
}

fn target(idx: u32, size: Size) -> SnapshotTarget {
    SnapshotTarget { window: wid(idx), server_id: WindowServerId::new(idx), size }
}

fn group(tiles: Vec<OverlayTile>, final_frames: Vec<(WindowId, Rect)>) -> Group {
    Group {
        tiles,
        final_frames,
        duration: ms(300),
        start: GroupStart::Coalesced,
        apply_at: APPLY_FRAMES_AT,
        entrances: Vec::new(),
        awaiting: Vec::new(),
        chase: Vec::new(),
        entrance_frames: Vec::new(),
        focus: None,
    }
}

fn on_display() -> FlightEngine {
    let mut engine = FlightEngine::new();
    engine.set_display(Display { id: 1, frame: DISPLAY, scale: 2000 });
    engine
}

/// An engine with one window in flight from left to right, not yet moving.
fn airborne() -> FlightEngine {
    let mut engine = on_display();
    let pass = group(vec![tile(wid(1), left(), right())], vec![(wid(1), right())]);
    let begun = engine.begin_group(pass, FlightPlan::empty(), true, NOW);
    assert!(matches!(begun, Begun::Up(_, Start::Wait(COALESCE_WINDOW))));
    engine
}

fn moving() -> FlightEngine {
    let mut engine = airborne();
    assert_eq!(engine.start_moving(NOW), Start::Moving(ms(300)));
    engine
}

#[test]
fn another_display_forgets_the_pictures_and_asks_for_a_render() {
    let mut engine = FlightEngine::new();
    let display = Display { id: 1, frame: DISPLAY, scale: 2000 };
    assert_eq!(engine.warm_desktop(), None);
    assert_eq!(engine.set_display(display), (true, Some((1, DISPLAY.size))));
    assert!(engine.bar_refresh);
    engine.desktop_landed(snapshot(DISPLAY.size));
    assert_eq!(engine.set_display(display), (false, None));
    assert!(engine.pictures.desktop.is_some());
    let (changed, render) = engine.set_display(Display { scale: 1000, ..display });
    assert!(changed);
    assert_eq!(render, Some((1, DISPLAY.size)));
    assert!(engine.pictures.desktop.is_none());
}

#[test]
fn a_display_change_in_flight_puts_the_render_off() {
    let mut engine = moving();
    let other = Display { id: 2, frame: DISPLAY, scale: 2000 };
    assert_eq!(engine.set_display(other), (true, None));
    assert!(engine.deferred_desktop);
    assert_eq!(engine.warm_desktop(), None);
}

#[test]
fn warming_asks_only_for_what_is_missing_misshapen_or_stale() {
    let mut engine = on_display();
    engine.cache.insert(wid(1), snapshot(left().size));
    let targets = vec![target(1, left().size), target(2, right().size)];
    let wanted = engine.warm_windows(&targets, NOW);
    assert_eq!(wanted, vec![target(2, right().size)]);
    let wider = Size::new(left().size.width * 2, left().size.height);
    assert_eq!(engine.warm_windows(&vec![target(1, wider)], NOW), vec![target(1, wider)]);
    let later = NOW + ms(2_001);
    assert_eq!(engine.warm_windows(&vec![target(1, left().size)], later).len(), 1);
    assert_eq!(engine.warm_windows(&vec![target(1, left().size)], NOW + ms(2_000)).len(), 0);
}

#[test]
fn warming_in_flight_waits_one_entry_per_window() {
    let mut engine = moving();
    assert!(engine.warm_windows(&vec![target(1, left().size)], NOW).is_empty());
    assert!(engine.warm_windows(&vec![target(1, right().size), target(2, left().size)], NOW).is_empty());
    assert_eq!(engine.deferred_warm.len(), 2);
}

#[test]
fn the_comparison_needs_like_bitmaps_of_one_size() {
    let mut engine = on_display();
    let incoming = snapshot(left().size);
    let print = vec![10u8, 20, 30];
    let close = vec![10u8, 21, 30];
    let nothing = engine.compare_with_cached(wid(1), &incoming, None, Some(&print));
    assert!(!nothing.renders_like_cached);
    assert!(nothing.same_source);
    engine.cache.insert(wid(1), snapshot(left().size));
    let like = engine.compare_with_cached(wid(1), &incoming, Some(&close), Some(&print));
    assert!(like.renders_like_cached);
    let mut framed = incoming;
    framed.source = SnapshotSource::SkyLight;
    let other = engine.compare_with_cached(wid(1), &framed, Some(&vec![200, 0, 0]), Some(&print));
    assert!(!other.renders_like_cached);
    assert!(!other.same_source);
}

#[test]
fn a_cached_window_is_drawn_and_a_cold_one_reserved() {
    let mut engine = on_display();
    engine.cache.insert(wid(1), snapshot(left().size));
    let requests = vec![request(1, left(), right()), request(2, right(), left())];
    let mut composition = Composition::new();
    let seen = ServerView { frame: Some(left()), order: Some(3) };
    assert!(!engine.capture_due(&composition, &requests, 0, &seen, DISPLAY));
    engine.compose_next(&mut composition, &requests, 0, &seen, None, Some(wid(1)), DISPLAY);
    let unseen = ServerView { frame: None, order: None };
    engine.compose_next(&mut composition, &requests, 1, &unseen, None, Some(wid(1)), DISPLAY);
    assert_eq!(composition.tiles.len(), 1);
    assert_eq!(composition.tiles[0].from, left());
    assert_eq!(composition.tiles[0].to, right());
    assert!(composition.tiles[0].focused);
    assert_eq!(composition.tiles[0].server_order, Some(3));
    assert_eq!(composition.entrances.len(), 1);
    assert_eq!(composition.awaiting, vec![(wid(2), left().size)]);
    assert_eq!(composition.needs_capture, vec![target(2, right().size)]);
}

#[test]
fn a_new_window_travels_from_where_the_system_showed_it() {
    let mut engine = on_display();
    let spawn = rect(400, 300, 600, 400);
    let requests = vec![request(7, spawn, left())];
    let mut composition = Composition::new();
    let seen = ServerView { frame: Some(spawn), order: None };
    assert!(engine.capture_due(&composition, &requests, 0, &seen, DISPLAY));
    let capture = snapshot(spawn.size);
    engine.compose_next(&mut composition, &requests, 0, &seen, Some(capture), None, DISPLAY);
    assert_eq!(composition.tiles.len(), 1);
    assert_eq!(composition.tiles[0].from, spawn);
    assert_eq!(composition.tiles[0].to.origin, left().origin);
    assert_eq!(composition.spawn_entrances.len(), 1);
    assert_eq!(composition.sync_captures, 1);
    // The capture is cached, so the next pass draws the window without another.
    assert!(engine.cache.get(wid(7)).is_some());
}

#[test]
fn a_parked_window_that_stays_parked_is_not_drawn() {
    let mut engine = on_display();
    let park = rect(1727, 1116, 859, 1081);
    engine.cache.insert(wid(1), snapshot(park.size));
    let requests = vec![request(1, park, park)];
    let mut composition = Composition::new();
    let seen = ServerView { frame: Some(park), order: None };
    engine.compose_next(&mut composition, &requests, 0, &seen, None, None, DISPLAY);
    assert!(composition.tiles.is_empty());
    assert_eq!(composition.offscreen, 1);
}

#[test]
fn a_border_rides_with_the_window_it_traces() {
    let mut engine = on_display();
    let border_frame = rect(2, 30, 863, 1085);
    let visible = vec![
        (WindowServerId::new(1), left()),
        (WindowServerId::new(90), border_frame),
    ];
    let tiles = vec![tile(wid(1), left(), right())];
    let anchors = anchors_of(&vec![(wid(1), left())], &tiles);
    let cold = engine.companions(&anchors, &visible, &vec![1]);
    assert!(cold.tiles.is_empty());
    assert_eq!(cold.targets.len(), 1);
    assert_eq!(cold.missing.len(), 1);
    let border = cold.targets[0].window;
    engine.cache.insert(border, snapshot(border_frame.size));
    let warm = engine.companions(&anchors, &visible, &vec![1]);
    assert_eq!(warm.tiles.len(), 1);
    assert!(warm.tiles[0].companion);
    assert_eq!(warm.tiles[0].from, border_frame);
    assert_eq!(warm.tiles[0].to, rect(865, 30, 863, 1085));
    assert!(FlightEngine::new().companions(&anchors, &visible, &vec![1]).targets.is_empty());
}

#[test]
fn captures_at_frame_zero_run_now_and_in_flight_wait() {
    let mut engine = airborne();
    let missing = vec![target(2, left().size)];
    assert_eq!(engine.route_captures(&missing), missing);
    let mut engine = moving();
    assert!(engine.route_captures(&missing).is_empty());
    assert_eq!(engine.deferred_warm, missing);
}

#[test]
fn a_pass_in_which_nothing_drawable_moves_is_placed_at_once() {
    let mut engine = on_display();
    let requests = vec![request(1, left(), right())];
    match engine.judge_pass(&requests, &Vec::new(), &Vec::new(), NOW) {
        PassVerdict::Grounded(frames, captures) => {
            assert_eq!(frames, vec![(wid(1), right())]);
            assert_eq!(captures.len(), 1);
        }
        PassVerdict::Fly(_) => panic!("nothing is drawn"),
    }
    let tiles = vec![tile(wid(1), left(), right())];
    assert!(matches!(
        engine.judge_pass(&requests, &tiles, &Vec::new(), NOW),
        PassVerdict::Fly(_)
    ));
    assert_eq!(engine.last_animated, vec![target(1, left().size)]);
    // A flight that is up takes even a still pass in.
    let mut engine = airborne();
    let still = vec![request(1, left(), left())];
    match engine.judge_pass(&still, &Vec::new(), &Vec::new(), NOW) {
        PassVerdict::Fly(frames) => assert!(frames.is_empty()),
        PassVerdict::Grounded(_, _) => panic!("a flight is up"),
    }
}

#[test]
fn a_group_without_tiles_is_grounded() {
    let mut engine = on_display();
    engine.last_animated = vec![target(1, left().size)];
    match engine.begin_group(group(Vec::new(), vec![(wid(1), right())]), FlightPlan::empty(), true, NOW) {
        Begun::Grounded(frames, captures) => {
            assert_eq!(frames, vec![(wid(1), right())]);
            assert_eq!(captures, vec![target(1, left().size)]);
        }
        Begun::Up(_, _) => panic!("there is nothing to draw"),
    }
    assert_eq!(engine.phase(), FlightPhase::Idle);
}

#[test]
fn a_held_group_places_every_frame_and_chases() {
    let mut engine = on_display();
    let mut pass = group(vec![tile(wid(1), left(), right())], vec![(wid(1), right())]);
    pass.awaiting = vec![(wid(1), right().size)];
    pass.entrance_frames = vec![(wid(9), left())];
    match engine.begin_group(pass, FlightPlan::empty(), true, NOW) {
        Begun::Up(due, start) => {
            assert_eq!(due.place, vec![(wid(1), right())]);
            assert_eq!(due.chase, vec![(wid(1), right().size)]);
            assert_eq!(start, Start::Wait(COALESCE_WINDOW));
        }
        Begun::Grounded(_, _) => panic!("there is a tile"),
    }
    assert!(engine.running.as_ref().unwrap().frames_applied);
    assert_eq!(engine.start_moving(NOW), Start::Wait(HOLD_CAP));
    // Past the deadline the placeholder flies.
    assert_eq!(engine.start_moving(NOW + HOLD_CAP), Start::Moving(ms(300)));
    assert_eq!(engine.start_moving(NOW + HOLD_CAP), Start::Nothing);
}

#[test]
fn a_strip_movement_moves_at_once_and_without_a_clock_counts_as_started() {
    let mut engine = on_display();
    let mut pass = group(vec![tile(wid(1), left(), right())], vec![(wid(1), right())]);
    pass.start = GroupStart::Immediate;
    let begun = engine.begin_group(pass, FlightPlan::empty(), true, NOW);
    assert!(matches!(begun, Begun::Up(_, Start::Moving(d)) if d == ms(300)));
    assert_eq!(engine.phase(), FlightPhase::Moving);
    let mut engine = on_display();
    let pass = group(vec![tile(wid(1), left(), right())], vec![(wid(1), right())]);
    let begun = engine.begin_group(pass, FlightPlan::empty(), false, NOW);
    assert!(matches!(begun, Begun::Up(_, Start::Moving(0))));
    assert_eq!(engine.running.as_ref().unwrap().started, Some(NOW));
}

#[test]
fn merging_needs_a_flight() {
    let pass = group(vec![tile(wid(1), left(), right())], vec![(wid(1), right())]);
    assert!(on_display().merge_group(&pass, NOW).is_none());
}

#[test]
fn a_pass_with_a_hold_places_the_frames_of_a_collecting_flight() {
    let mut engine = airborne();
    let mut pass = group(vec![tile(wid(2), right(), left())], vec![(wid(2), left())]);
    pass.awaiting = vec![(wid(2), left().size)];
    let merge = engine.merge_group(&pass, NOW).unwrap();
    assert!(!merge.in_flight);
    assert!(merge.frames_changed);
    assert_eq!(merge.hold_frames.as_ref().unwrap().len(), 2);
    let due = engine.after_merge(&pass, &merge);
    assert_eq!(due.place, vec![(wid(1), right()), (wid(2), left())]);
    assert_eq!(due.chase, vec![(wid(2), left().size)]);
    assert!(due.then_place.is_empty());
    engine.recompose(FlightPlan::empty());
    let flight = engine.running.as_ref().unwrap();
    assert_eq!(flight.hold_deadline, Some(NOW + HOLD_CAP));
    assert_eq!(flight.tiles.len(), 2);
}

#[test]
fn a_changed_destination_in_flight_starts_the_clock_again() {
    let mut engine = moving();
    let other = rect(434, 32, 859, 1081);
    let pass = group(vec![tile(wid(1), left(), other)], vec![(wid(1), other)]);
    let merge = engine.merge_group(&pass, NOW + ms(100)).unwrap();
    assert!(merge.in_flight);
    assert!(merge.frames_changed);
    assert!(merge.hold_frames.is_none());
    engine.replan(FlightPlan::empty(), true, merge.frames_changed, ms(200), NOW + ms(100));
    let flight = engine.running.as_ref().unwrap();
    assert_eq!(flight.started, Some(NOW + ms(100)));
    assert_eq!(flight.duration, ms(200));
    // A pass that repeats what the flight knows changes nothing.
    let again = engine.merge_group(&pass, NOW + ms(150)).unwrap();
    assert!(!again.frames_changed);
    assert!(!again.focus_changed);
}

#[test]
fn a_merged_plan_says_where_its_tiles_end() {
    let mut engine = moving();
    let key = GroupKey::Rigid(0);
    let mut merged = FlightPlan::empty();
    merged.groups.push(RigidGroup {
        key,
        travel: Point::new(100_000, 0),
        members: vec![RigidMember { window: wid(1), rel: left() }],
    });
    merged.positions.push((key, Point::new(100_000, 0)));
    engine.replan(merged, false, false, ms(200), NOW + ms(100));
    let flight = engine.running.as_ref().unwrap();
    assert_eq!(flight.tiles[0].to, rect(104, 32, 859, 1081));
    assert_eq!(flight.tiles[0].from, left());
    assert_eq!(flight.started, Some(NOW));
    assert_eq!(flight.duration, ms(300));
}

#[test]
fn frames_go_out_at_the_apply_point_and_once() {
    let mut engine = moving();
    let early = engine.step(NOW + ms(100));
    assert!(early.frames.is_empty());
    assert!(!early.clock_done);
    let due = engine.step(NOW + ms(225));
    assert_eq!(due.frames, vec![(wid(1), right())]);
    let done = engine.step(NOW + ms(300));
    assert!(done.frames.is_empty());
    assert!(done.clock_done);
}

#[test]
fn the_overlay_lifts_once_settled_and_landed_or_overdue() {
    let engine = moving();
    assert_eq!(engine.handover_windows(), vec![wid(1)]);
    let landed = vec![(wid(1), right())];
    let astray = vec![(wid(1), left())];
    assert_eq!(engine.handover(&astray).unwrap().count_over, 1);
    assert_eq!(engine.handover(&landed).unwrap().count_over, 0);
    assert!(!engine.lifts(true, &landed, NOW + ms(299)));
    assert!(engine.lifts(true, &landed, NOW + ms(300)));
    assert!(!engine.lifts(false, &landed, NOW + ms(300)));
    assert!(!engine.lifts(true, &astray, NOW + ms(300)));
    assert!(!engine.lifts(false, &astray, NOW + ms(300) + LIFT_GRACE));
    assert!(engine.lifts(false, &astray, NOW + ms(300) + LIFT_GRACE + 1));
    assert!(!FlightEngine::new().lifts(true, &landed, NOW));
}

#[test]
fn a_lift_sends_what_is_owed_and_leaves_captures_for_the_quiet_period() {
    let mut engine = on_display();
    let requests = vec![request(1, left(), right())];
    let tiles = vec![tile(wid(1), left(), right())];
    engine.judge_pass(&requests, &tiles, &Vec::new(), NOW);
    engine.begin_group(group(tiles, vec![(wid(1), right())]), FlightPlan::empty(), true, NOW);
    engine.start_moving(NOW);
    engine.warm_windows(&vec![target(5, left().size)], NOW);
    engine.warm_desktop();
    assert_eq!(engine.finish(), vec![(wid(1), right())]);
    assert!(engine.running.is_none());
    assert!(engine.quiet);
    let work = engine.after_flight_captures(NOW + ms(700));
    assert_eq!(work.captures.len(), 1);
    assert_eq!(work.captures[0].window, wid(1));
    assert_eq!(work.deferred, vec![target(5, left().size)]);
    assert_eq!(work.desktop, Some((1, DISPLAY.size)));
    // Once per quiet period.
    let again = engine.after_flight_captures(NOW + ms(800));
    assert!(again.captures.is_empty() && again.deferred.is_empty() && again.desktop.is_none());
}

#[test]
fn a_flight_inside_the_quiet_period_carries_the_captures_over() {
    let mut engine = moving();
    engine.last_animated = vec![target(1, left().size)];
    engine.finish();
    let pass = group(vec![tile(wid(2), left(), right())], vec![(wid(2), right())]);
    engine.begin_group(pass, FlightPlan::empty(), true, NOW + ms(350));
    assert!(!engine.quiet);
    assert!(engine.after_flight_captures(NOW + ms(700)).captures.is_empty());
    engine.finish();
    assert_eq!(engine.after_flight_captures(NOW + ms(1_100)).captures.len(), 1);
}

#[test]
fn a_settled_picture_releases_the_hold_and_a_background_capture_does_not() {
    let mut engine = on_display();
    let mut pass = group(vec![tile(wid(1), left(), right())], vec![(wid(1), right())]);
    pass.awaiting = vec![(wid(1), right().size)];
    engine.begin_group(pass, FlightPlan::empty(), true, NOW);
    let picture = snapshot(right().size);
    assert_eq!(engine.snapshot_landed(wid(1), &picture, None, None, NOW + ms(10)), Offer::CacheOnly);
    assert_eq!(engine.phase(), FlightPhase::Holding);
    assert_eq!(
        engine.picture_ready(wid(1), &picture, true, None, None, NOW + ms(20)),
        Offer::Taken(Start::Moving(ms(300)))
    );
    assert_eq!(engine.running.as_ref().unwrap().started, Some(NOW + ms(20)));
    assert!(engine.cache.get(wid(1)).is_some());
}

#[test]
fn only_a_refreshed_window_swaps_in_flight() {
    let mut engine = moving();
    let picture = snapshot(right().size);
    assert_eq!(engine.picture_ready(wid(1), &picture, true, None, None, NOW + ms(150)), Offer::CacheOnly);
    engine.running.as_mut().unwrap().refresh_targets.push(wid(1));
    assert_eq!(
        engine.picture_ready(wid(1), &picture, true, None, None, NOW + ms(150)),
        Offer::Swapped(SwapReason::Refresh, ms(150))
    );
    // Too late in the flight a swap would be a cut just before the lift.
    assert_eq!(engine.picture_ready(wid(1), &picture, true, None, None, NOW + ms(180)), Offer::CacheOnly);
}

#[test]
fn a_picture_is_judged_against_the_cache_as_it_was() {
    let mut engine = moving();
    engine.running.as_mut().unwrap().refresh_targets.push(wid(1));
    let picture = snapshot(right().size);
    engine.cache.insert(wid(1), picture);
    let (before, after) = (vec![10u8, 20, 30], vec![200u8, 20, 30]);
    let at = NOW + ms(150);
    // It renders like the cached one, so a swap would be a cut for nothing.
    assert_eq!(
        engine.picture_ready(wid(1), &picture, true, Some(&before), Some(&before), at),
        Offer::CacheOnly
    );
    assert_eq!(
        engine.picture_ready(wid(1), &picture, true, Some(&before), Some(&after), at),
        Offer::Swapped(SwapReason::Refresh, ms(150))
    );
    // By another route than the cached one it is never swapped, though it is cached from now on.
    let mut framed = picture;
    framed.source = SnapshotSource::SkyLight;
    assert_eq!(engine.snapshot_landed(wid(1), &framed, Some(&before), Some(&after), at), Offer::CacheOnly);
    assert_eq!(engine.cache.get(wid(1)).unwrap().source, SnapshotSource::SkyLight);
    assert_eq!(
        engine.snapshot_landed(wid(1), &framed, Some(&before), Some(&after), at),
        Offer::Swapped(SwapReason::Refresh, ms(150))
    );
}

#[test]
fn a_held_claim_keeps_the_timer_until_the_flight_moves() {
    let mut engine = on_display();
    let tiles = vec![tile(wid(1), left(), right()), tile(wid(2), right(), left())];
    let mut pass = group(tiles, vec![(wid(1), right()), (wid(2), left())]);
    pass.awaiting = vec![(wid(1), right().size), (wid(2), left().size)];
    engine.begin_group(pass, FlightPlan::empty(), true, NOW);
    assert_eq!(engine.coalesce, Some(COALESCE_WINDOW));
    let picture = snapshot(right().size);
    let taken = engine.picture_ready(wid(1), &picture, true, None, None, NOW + ms(5));
    assert_eq!(taken, Offer::Taken(Start::Nothing));
    assert_eq!(engine.coalesce, Some(COALESCE_WINDOW));
    let taken = engine.picture_ready(wid(2), &picture, true, None, None, NOW + ms(6));
    assert_eq!(taken, Offer::Taken(Start::Moving(ms(300))));
    assert_eq!(engine.coalesce, None);
}

#[test]
fn a_reserved_window_enters_a_moving_flight_and_its_plan() {
    let mut engine = moving();
    let reserved = PendingEntrance { window: wid(4), to: left(), floating: false };
    engine.running.as_mut().unwrap().entrances.push(reserved);
    let picture = snapshot(left().size);
    match engine.picture_ready(wid(4), &picture, true, None, None, NOW + ms(100)) {
        Offer::Entered(tile, travel) => {
            assert_eq!(tile.window(), wid(4));
            assert_eq!(tile.to(), left());
            assert_eq!(tile.from().size, tile.from.size);
            assert!(!tile.floating() && !tile.companion());
            assert_eq!(travel, ms(200));
        }
        _ => panic!("the window was reserved"),
    }
    let flight = engine.running.as_ref().unwrap();
    assert!(flight.entrances.is_empty());
    assert_eq!(flight.tiles.len(), 2);
    assert_eq!(flight.plan.entrances.len(), 1);
    assert_eq!(flight.plan.entrances[0].0, wid(4));
    assert_eq!(flight.plan.entrances[0].2, left());
}

#[test]
fn a_batch_is_dressed_between_flights_only() {
    let landed = vec![(wid(1), snapshot(left().size)), (wid(2), snapshot(Size::new(0, 0)))];
    assert_eq!(on_display().to_dress(&landed), vec![wid(1)]);
    assert!(moving().to_dress(&landed).is_empty());
    let mut engine = moving();
    engine.cache.insert(wid(1), snapshot(left().size));
    assert!(engine.dressing_ready(wid(1), 77));
    assert_eq!(engine.cache.get(wid(1)).unwrap().dressing, Some(77));
    assert_eq!(engine.running.as_ref().unwrap().harvested, vec![wid(1)]);
    assert!(!on_display().dressing_ready(wid(1), 77));
}

#[test]
fn the_backdrop_is_the_render_then_a_composite_then_what_was_shown() {
    let mut engine = FlightEngine::new();
    assert_eq!(engine.backdrop_in_hand(NOW), Backdrop::NoDisplay);
    let mut engine = on_display();
    assert_eq!(engine.backdrop_in_hand(NOW), Backdrop::Composite);
    assert!(engine.deferred_desktop);
    let composite = snapshot(DISPLAY.size);
    // The first time a composite without wallpaper beats black.
    assert_eq!(engine.composite_captured(Some(composite), false), Some(composite));
    assert_eq!(engine.composite_captured(Some(composite), false), None);
    assert_eq!(engine.dress_backdrop(Some(composite)), Some(composite));
    assert_eq!(engine.dress_backdrop(None), Some(composite));
    engine.desktop_landed(composite);
    assert_eq!(engine.backdrop_in_hand(NOW), Backdrop::Rendered(composite));
}

#[test]
fn the_bar_is_captured_only_while_uncovered_and_kept_when_it_fits() {
    let mut engine = on_display();
    let bounds = rect(0, 0, 1728, 32);
    assert_eq!(engine.refresh_bar(true, Some(bounds)), None);
    assert_eq!(engine.refresh_bar(false, None), None);
    assert_eq!(engine.refresh_bar(false, Some(bounds)), Some(bounds.size));
    engine.bar_captured(Some(snapshot(left().size)), bounds.size);
    assert_eq!(engine.bar_picture(Some(bounds)), (None, Some(bounds)));
    let bar = snapshot(bounds.size);
    engine.bar_captured(Some(bar), bounds.size);
    engine.bar_captured(None, bounds.size);
    assert_eq!(engine.bar_picture(Some(bounds)), (Some(bar), Some(bounds)));
    assert_eq!(engine.bar_picture(None), (None, None));
}

#[test]
fn a_bounce_lengthens_the_flight_it_joins() {
    assert!(!on_display().bounce(ms(200), NOW));
    let mut engine = moving();
    assert!(engine.bounce(ms(50), NOW + ms(100)));
    assert_eq!(engine.running.as_ref().unwrap().duration, ms(300));
    assert!(engine.bounce(ms(400), NOW + ms(100)));
    assert_eq!(engine.running.as_ref().unwrap().duration, ms(500));
}

#[test]
fn a_forgotten_window_has_no_picture() {
    let mut engine = on_display();
    engine.cache.insert(wid(1), snapshot(left().size));
    engine.forget_window(wid(1));
    assert!(engine.cache.get(wid(1)).is_none());
}

#[test]
fn two_like_captures_settle_a_chase() {
    let mut chase = Chase::new(left().size, None);
    assert_eq!(chase.saw(Some(right().size)), ChaseStep::Capture);
    let picture = snapshot(left().size);
    assert_eq!(chase.captured(Some(picture), Some(vec![1, 2, 3])), ChaseStep::Look);
    assert_eq!(chase.saw(Some(left().size)), ChaseStep::Capture);
    assert_eq!(chase.captured(Some(picture), Some(vec![1, 2, 3])), ChaseStep::Settled);
}

#[test]
fn a_chase_gives_up_when_its_looks_are_spent() {
    let mut chase = Chase::new(left().size, None);
    let small = Size::new(1_000, 1_000);
    let mut looks = 1;
    while chase.saw(Some(small)) == ChaseStep::Look {
        looks += 1;
    }
    assert_eq!(looks, REVEAL_CHASE_ATTEMPTS);
}

#[test]
fn a_strip_movement_draws_what_has_a_picture_and_counts_the_rest() {
    let mut composition = SurfaceComposition::new();
    let strip = SurfaceWindow {
        window: wid(1),
        server_id: WindowServerId::new(1),
        frame: left(),
        pinned: false,
        floating: false,
    };
    let view = ServerView { frame: Some(left()), order: Some(0) };
    let here = Point::new(0, 0);
    let there = Point::new(863_000, 0);
    composition.take(&strip, &view, Some(snapshot(left().size)), here, there, Some(wid(1)));
    composition.take(&strip, &view, None, here, there, None);
    let half = Size::new(left().size.width / 2, left().size.height);
    composition.take(&strip, &view, Some(snapshot(half)), here, there, None);
    assert_eq!(composition.tiles.len(), 2);
    assert_eq!(composition.missing, 1);
    assert_eq!(composition.misshapen, 1);
    assert!(composition.tiles[0].focused);
    assert_eq!(composition.tiles[0].from, left());
    assert_eq!(composition.tiles[0].to, rect(4 - 863, 32, 859, 1081));
    assert_eq!(surface_animated(&vec![strip]), vec![target(1, left().size)]);
}

#[test]
fn a_layout_pass_hands_on_what_it_composed() {
    let mut engine = on_display();
    engine.cache.insert(wid(1), snapshot(left().size));
    let requests = vec![request(1, left(), right()), request(2, right(), left())];
    let mut pass = Composition::new();
    let seen = ServerView { frame: Some(left()), order: Some(3) };
    let unseen = ServerView { frame: None, order: None };
    engine.compose_next(&mut pass, &requests, 0, &seen, None, None, DISPLAY);
    engine.compose_next(&mut pass, &requests, 1, &unseen, None, None, DISPLAY);
    let border = tile(wid(90), left(), right());
    let borders = Companions {
        tiles: vec![border],
        targets: vec![target(90, left().size)],
        missing: vec![target(91, left().size)],
    };
    assert_eq!(pass_tiles(&pass.tiles, &borders).len(), 2);
    let missing = pass_captures(&pass.needs_capture, &borders);
    assert_eq!(missing, vec![target(2, right().size), target(91, left().size)]);
    let frames = vec![(wid(1), right())];
    let made = layout_group(pass, &borders, frames.clone(), &requests, Some(wid(1)), ms(300));
    assert_eq!(made.tiles.len(), 2);
    assert_eq!(made.tiles[1], border);
    assert_eq!(made.awaiting, vec![(wid(2), left().size)]);
    assert_eq!(made.entrances.len(), 1);
    assert_eq!(made.start, GroupStart::Coalesced);
    assert_eq!(made.apply_at, 75);
    assert_eq!((made.final_frames, made.duration, made.focus), (frames, ms(300), Some(wid(1))));
    let grown = vec![request(1, left(), rect(4, 32, 1147, 1081))];
    let made = layout_group(Composition::new(), &borders, Vec::new(), &grown, None, 0);
    assert_eq!(made.apply_at, 50);
}

#[test]
fn a_strip_movement_hands_on_what_it_draws() {
    let strip = |idx: u32| SurfaceWindow {
        window: wid(idx),
        server_id: WindowServerId::new(idx),
        frame: left(),
        pinned: false,
        floating: false,
    };
    let windows = vec![strip(1), strip(2), strip(3)];
    let view = ServerView { frame: None, order: None };
    let here = Point::new(0, 0);
    let mut pass = SurfaceComposition::new();
    pass.take(&windows[0], &view, Some(snapshot(left().size)), here, here, None);
    pass.take(&windows[1], &view, None, here, here, None);
    pass.take(&windows[2], &view, Some(snapshot(left().size)), here, here, None);
    let mut border = tile(wid(2), left(), left());
    border.companion = true;
    let borders = Companions {
        tiles: vec![border],
        targets: vec![target(90, left().size)],
        missing: Vec::new(),
    };
    let mut engine = on_display();
    engine.remember_surface(&windows, &borders);
    assert_eq!(engine.last_animated.len(), 4);
    assert_eq!(engine.last_animated[3], target(90, left().size));
    let frames = vec![(wid(2), right())];
    let (made, drawn) = surface_group(pass, &windows, &borders, frames.clone(), None, ms(200));
    assert_eq!(drawn, vec![strip(1), strip(3)]);
    assert_eq!(made.tiles.len(), 3);
    assert_eq!(made.start, GroupStart::Immediate);
    assert_eq!(made.apply_at, 0);
    assert!(made.entrances.is_empty() && made.awaiting.is_empty() && made.chase.is_empty());
    assert_eq!((made.final_frames, made.duration), (frames, ms(200)));
}

#[test]
fn every_visible_window_can_be_warmed_and_slid() {
    let visible = vec![(WindowServerId::new(12), left())];
    let warmed = warm_cache(&visible);
    assert_eq!(warmed.len(), 1);
    assert_eq!(warmed[0].server_id, WindowServerId::new(12));
    assert_eq!(warmed[0].size, left().size);
    let slid = debug_slide(&visible, Point::new(300_000, 0));
    assert_eq!(slid[0].window, warmed[0].window);
    assert_eq!(slid[0].from, rect(304, 32, 859, 1081));
    assert_eq!(slid[0].to, left());
}
