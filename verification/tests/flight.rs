//! Flights: what joins them, what they hold for, what they swap, and when they lift.
use rini::fit::{needs_capture, outgrows, should_replace, Coverage, Extent};
use rini::flight::decision::{
    capture_work_allowed, chase_settled, defer_warm, entrance_from, entrance_plan,
    entrance_reservation, hold_wait, lift_now, managed_server_ids, mark_stale_on_untiled_change,
    merge_action, reveal_hold_limit, worth_flying, Admitted, CaptureKind, Claimed,
    EntranceDecision, FlightKind, FlightPhase, PendingEntrance, ReserveReason, SnapshotTarget,
    SwapDecision, SwapReason, TileState, HOLD_CAP, LIFT_GRACE, REVEAL_CHASE_ATTEMPTS, REVEAL_CHASE_INTERVAL,
};
use rini::flight::engine::DisplayPictures;
use rini::flight::plan::{
    group_relative, overlay_of, FlightPlan, GroupKey, Member, RigidGroup, RigidMember,
};
use rini::flight::running::RunningAnimation;
use rini::flight::stack::{
    band_plan, focus_group, group_of, restack, tile_depth, Banding, OverlayTile, StackGroup,
    GROUP_STRIDE, MAX_TILE_DEPTH,
};
use rini::geometry::{is_off_screen, park_entry_frame, Point, Rect, SameAs, Size};
use rini::ids::{WindowId, WindowServerId};
use rini::snapshot::{SnapshotCache, SnapshotImage, SnapshotSource, WindowSnapshot};
use rini::surface::{surface_travel, to_overlay_space};
use rini::time::Progress;
use rini::travel::{is_moving, resolve_start, worth_animating};

const DISPLAY: Rect = Rect {
    origin: Point { x: 0, y: 0 },
    size: Size { width: 1_728_000, height: 1_117_000 },
};

const EXTERNAL: Rect = Rect {
    origin: Point { x: 1_728_000, y: -300_000 },
    size: Size { width: 3_008_000, height: 1_692_000 },
};

/// The moment the tests run at.
const NOW: u64 = 100_000_000_000;

const RUNS: usize = 200;

/// Points, in thousandths.
fn pt(points: f64) -> i64 {
    (points * 1000.0).round() as i64
}

/// Thousandths, in points.
fn fl(thousandths: i64) -> f64 {
    thousandths as f64 / 1000.0
}

fn point(x: f64, y: f64) -> Point {
    Point::new(pt(x), pt(y))
}

fn size(width: f64, height: f64) -> Size {
    Size::new(pt(width), pt(height))
}

fn rect(x: f64, y: f64, w: f64, h: f64) -> Rect {
    Rect::new(point(x, y), size(w, h))
}

fn ms(milliseconds: u64) -> u64 {
    milliseconds * 1_000_000
}

fn secs(seconds: u64) -> u64 {
    seconds * 1_000_000_000
}

/// Progress, from a share.
fn p(share: f64) -> Progress {
    Progress { elapsed: (share * 1_000_000.0).round() as u64, total: 1_000_000 }
}

/// Progress, as a share.
fn share(progress: Progress) -> f64 {
    if progress.total == 0 {
        return 1.0;
    }
    (progress.elapsed as f64 / progress.total as f64).min(1.0)
}

fn percent(share: f64) -> u8 {
    (share * 100.0).round() as u8
}

const APPLY_FRAMES_AT: f64 = rini::flight::decision::APPLY_FRAMES_AT as f64 / 100.0;
const APPLY_FRAMES_AT_RESIZE: f64 = rini::flight::decision::APPLY_FRAMES_AT_RESIZE as f64 / 100.0;
const APPLY_FRAMES_AT_PAN: f64 = rini::flight::decision::APPLY_FRAMES_AT_PAN as f64 / 100.0;
const REFRESH_DESTINATION_AT: f64 = rini::flight::decision::REFRESH_DESTINATION_AT as f64 / 100.0;
const REFRESH_APPLY_BEFORE: f64 = rini::flight::decision::REFRESH_APPLY_BEFORE as f64 / 100.0;

fn apply_frames_at(kind: FlightKind, any_resize: bool) -> f64 {
    rini::flight::decision::apply_frames_at(kind, any_resize) as f64 / 100.0
}

fn should_swap_mid_flight(
    state: TileState,
    settled: bool,
    renders_like_cached: bool,
    same_source: bool,
    progress: Option<f64>,
) -> SwapDecision {
    rini::flight::decision::should_swap_mid_flight(
        state,
        settled,
        renders_like_cached,
        same_source,
        progress.map(p),
    )
}

fn late_join_duration(duration: u64, progress: f64) -> u64 {
    rini::flight::decision::late_join_duration(duration, p(progress))
}

fn refresh_targets(
    previous: Option<WindowId>,
    current: Option<WindowId>,
    tiles: &[WindowId],
) -> Vec<WindowId> {
    rini::flight::decision::refresh_targets(previous, current, &tiles.to_vec())
}

fn refresh_requests(
    tiles: &[(WindowId, WindowServerId, Size)],
    wanted: &[WindowId],
) -> (Vec<WindowId>, Vec<SnapshotTarget>) {
    rini::flight::decision::refresh_requests(&tiles.to_vec(), &wanted.to_vec())
}

fn companion_of(
    frame: Rect,
    candidates: &[(WindowServerId, Rect)],
    display: Rect,
) -> Option<(WindowServerId, Rect)> {
    rini::flight::decision::companion_of(frame, &candidates.to_vec(), display)
}

fn desktop_render_wanted(render: Option<(u64, (f64, f64))>, display: (f64, f64)) -> bool {
    let pair = |extent: (f64, f64)| (pt(extent.0), pt(extent.1));
    rini::flight::decision::desktop_render_wanted(
        render.map(|(age, covered)| (age, Extent::points(pair(covered)))),
        pair(display),
    )
}

fn finish_harvest_set(
    animated: &[WindowId],
    harvested: &[WindowId],
    requested: &[WindowId],
    dressed: &[WindowId],
) -> Vec<WindowId> {
    rini::flight::decision::finish_harvest_set(
        &animated.to_vec(),
        &harvested.to_vec(),
        &requested.to_vec(),
        &dressed.to_vec(),
    )
}

fn frame_zero_work(
    awaiting: &[(WindowId, Size)],
    chase: &[(WindowId, Size)],
    final_frames: &[(WindowId, Rect)],
    entrance_frames: &[(WindowId, Rect)],
) -> (bool, Vec<(WindowId, Size)>, Vec<(WindowId, Rect)>) {
    rini::flight::decision::frame_zero_work(
        &awaiting.to_vec(),
        &chase.to_vec(),
        &final_frames.to_vec(),
        &entrance_frames.to_vec(),
    )
}

fn merge_final_frames(
    existing: &mut Vec<(WindowId, Rect)>,
    incoming: Vec<(WindowId, Rect)>,
) -> bool {
    rini::flight::decision::merge_final_frames(existing, &incoming)
}

fn reapply_set(
    frames_applied: bool,
    in_flight: bool,
    changed: bool,
    final_frames: &[(WindowId, Rect)],
) -> Option<Vec<(WindowId, Rect)>> {
    rini::flight::decision::reapply_set(frames_applied, in_flight, changed, &final_frames.to_vec())
}

fn retarget_entrances(
    entrances: &mut Vec<PendingEntrance>,
    final_frames: &[(WindowId, Rect)],
    display: Rect,
) -> usize {
    rini::flight::decision::retarget_entrances(entrances, &final_frames.to_vec(), display)
}

fn clock_for_bounce(started: Option<u64>, duration: u64, bounce: u64) -> u64 {
    rini::flight::decision::clock_for_bounce(started.map(|at| NOW - at), duration, bounce)
}

/// A handover report in points.
#[derive(Debug)]
struct Report {
    total: usize,
    count_over: usize,
    worst_visible_pt: f64,
    worst_wsid: u32,
}

fn handover_report(
    final_frames: &[(WindowId, Rect)],
    tiled: &[WindowId],
    actual: &[(WindowId, Rect)],
    display: Rect,
) -> Report {
    let report = rini::flight::decision::handover_report(
        &final_frames.to_vec(),
        &tiled.to_vec(),
        &actual.to_vec(),
        display,
    );
    Report {
        total: report.total,
        count_over: report.count_over,
        worst_visible_pt: report.worst_visible_pt as f64 / 1000.0,
        worst_wsid: report.worst_wsid,
    }
}

fn wid(idx: u32) -> WindowId {
    WindowId::new(7, idx)
}

fn wid1(idx: u32) -> WindowId {
    WindowId::new(1, idx)
}

fn test_snapshot(size: Size) -> WindowSnapshot {
    WindowSnapshot {
        image: SnapshotImage::Bitmap(1),
        coverage: Coverage {
            covered: Extent::points((size.width, size.height)),
            window: (size.width, size.height),
        },
        source: SnapshotSource::ScreenCaptureKit,
        dressing: None,
        taken: NOW,
    }
}

fn clipped(size: Size) -> WindowSnapshot {
    let mut snapshot = test_snapshot(size);
    snapshot.coverage.covered = Extent::points((pt(40.0), size.height));
    snapshot
}

fn stacked(
    window: WindowId,
    from: Rect,
    to: Rect,
    server_order: Option<usize>,
    floating: bool,
) -> OverlayTile {
    OverlayTile {
        window,
        from,
        to,
        snapshot: test_snapshot(to.size),
        floating,
        server_order,
        depth: 0,
        companion: false,
        focused: false,
    }
}

fn tile_of(window: WindowId, from: Rect, to: Rect) -> OverlayTile {
    stacked(window, from, to, None, false)
}

fn flight(started: Option<u64>) -> RunningAnimation {
    RunningAnimation {
        tiles: Vec::new(),
        final_frames: Vec::new(),
        frames_applied: false,
        started,
        duration: ms(300),
        apply_at: percent(APPLY_FRAMES_AT),
        entrances: Vec::new(),
        awaiting: Vec::new(),
        hold_deadline: None,
        destination_refreshed: false,
        refresh_targets: Vec::new(),
        harvested: Vec::new(),
        focus: None,
        plan: FlightPlan::empty(),
    }
}

fn unstarted() -> RunningAnimation {
    flight(None)
}

fn running_at(started: Option<u64>, duration: u64) -> RunningAnimation {
    RunningAnimation { duration, ..flight(started) }
}

fn running_with(final_frames: Vec<(WindowId, Rect)>) -> RunningAnimation {
    RunningAnimation { final_frames, ..flight(None) }
}

fn holding_for(window: WindowId, to: Rect, floating: bool) -> RunningAnimation {
    let mut flight = flight(None);
    let (entrance, waiting) = entrance_reservation(window, to, floating);
    flight.entrances.push(entrance);
    flight.awaiting.extend(waiting);
    flight.frames_applied = true;
    flight
}

fn depth(flight: &RunningAnimation, window: WindowId) -> usize {
    flight.tiles.iter().find(|t| t.window == window).unwrap().depth
}

fn target(idx: u32, width: f64) -> SnapshotTarget {
    SnapshotTarget {
        window: wid(idx),
        server_id: WindowServerId::new(idx),
        size: size(width, 1081.0),
    }
}

fn shifted(frame: Rect, by: Point) -> Rect {
    Rect::new(Point::new(frame.origin.x + by.x, frame.origin.y + by.y), frame.size)
}

fn column(i: f64) -> Rect {
    rect(4.0 + i * 863.0, 32.0, 859.0, 1081.0)
}

fn moving_drawable(tiles: &Vec<OverlayTile>) -> bool {
    rini::flight::engine::moving_drawable(tiles)
}

fn measured(
    frames: &[(WindowId, Rect, Rect)],
) -> (Vec<(WindowId, Rect)>, Vec<WindowId>, Vec<(WindowId, Rect)>) {
    let final_frames = frames.iter().map(|(w, intended, _)| (*w, *intended)).collect();
    let tiled = frames.iter().map(|(w, _, _)| *w).collect();
    let actual = frames.iter().map(|(w, _, actual)| (*w, *actual)).collect();
    (final_frames, tiled, actual)
}

fn reveal_hold_limit_old(duration: u64) -> u64 {
    (duration * 4 / 10).max(ms(300))
}

fn apply_frames_at_old(any_resize: bool) -> f64 {
    if any_resize {
        APPLY_FRAMES_AT_RESIZE
    } else {
        APPLY_FRAMES_AT
    }
}

/// A small deterministic generator, so a failure names its seed and replays.
struct Gen(u64);

impl Gen {
    fn next(&mut self) -> u64 {
        self.0 = self.0.wrapping_mul(6364136223846793005).wrapping_add(1442695040888963407);
        self.0 >> 11
    }

    fn below(&mut self, n: u64) -> u64 {
        self.next() % n
    }

    fn pt(&mut self, lo: f64, hi: f64) -> f64 {
        lo + self.below((hi - lo) as u64 + 1) as f64
    }

    fn coin(&mut self) -> bool {
        self.below(2) == 0
    }

    /// A share of the way, or none.
    fn share(&mut self) -> Option<f64> {
        if self.coin() {
            Some(self.below(1001) as f64 / 1000.0)
        } else {
            None
        }
    }

    /// A window frame with a real share of the display showing: a column on the strip.
    fn on_screen(&mut self) -> Rect {
        let w = self.pt(400.0, 1720.0);
        let h = self.pt(600.0, 1081.0);
        let x = self.pt(-w / 4.0, 1728.0 - w * 0.75);
        rect(x, 32.0, w, h)
    }

    /// The layout's park for a scrolled-off window: one point showing in a bottom corner.
    fn park(&mut self, size: Size) -> Rect {
        let x = if self.coin() { 1727.0 } else { -fl(size.width) + 1.0 };
        rect(x, 1116.0, fl(size.width), fl(size.height))
    }
}

fn any_state(rng: &mut Gen) -> TileState {
    match rng.below(4) {
        0 => TileState::NotTiled,
        1 => TileState::Awaiting,
        2 => TileState::Moving { fits: rng.coin(), resizing: rng.coin() },
        _ => TileState::MovingRefreshTarget { fits: rng.coin(), resizing: rng.coin() },
    }
}

const STATES: [TileState; 12] = [
    TileState::NotTiled,
    TileState::Awaiting,
    TileState::Reveal { fits: false },
    TileState::Reveal { fits: true },
    TileState::Moving { fits: false, resizing: false },
    TileState::Moving { fits: false, resizing: true },
    TileState::Moving { fits: true, resizing: false },
    TileState::Moving { fits: true, resizing: true },
    TileState::MovingRefreshTarget { fits: false, resizing: false },
    TileState::MovingRefreshTarget { fits: false, resizing: true },
    TileState::MovingRefreshTarget { fits: true, resizing: false },
    TileState::MovingRefreshTarget { fits: true, resizing: true },
];

fn expected(
    state: TileState,
    settled: bool,
    renders_like_cached: bool,
    same_source: bool,
    progress: Option<f64>,
) -> SwapDecision {
    match state {
        TileState::Awaiting | TileState::Reveal { .. } if progress.is_none() => {
            SwapDecision::Claim
        }
        TileState::Awaiting => SwapDecision::Admit,
        TileState::Reveal { fits } => {
            if fits && settled && progress.is_some_and(|p| p < 0.6) {
                SwapDecision::Swap(SwapReason::Reveal)
            } else {
                SwapDecision::CacheOnly
            }
        }
        TileState::MovingRefreshTarget { fits: true, resizing } => {
            let early = progress.is_some_and(|p| p < 0.6);
            if early && same_source && !renders_like_cached && (!resizing || settled) {
                SwapDecision::Swap(SwapReason::Refresh)
            } else {
                SwapDecision::CacheOnly
            }
        }
        _ => SwapDecision::CacheOnly,
    }
}

const PHASES: [FlightPhase; 4] =
    [FlightPhase::Idle, FlightPhase::FrameZero, FlightPhase::Holding, FlightPhase::Moving];

const KINDS: [CaptureKind; 6] = [
    CaptureKind::Warm,
    CaptureKind::Desktop,
    CaptureKind::Refresh,
    CaptureKind::Chase,
    CaptureKind::Harvest,
    CaptureKind::NeedsCapture,
];

fn expected_allowed(phase: FlightPhase, kind: CaptureKind) -> bool {
    match (phase, kind) {
        (FlightPhase::Idle, _) => true,
        (_, CaptureKind::Chase) => true,
        (FlightPhase::FrameZero, CaptureKind::NeedsCapture) => true,
        (FlightPhase::Moving, CaptureKind::Refresh) => true,
        _ => false,
    }
}

/// The place a window has within its container.
fn within(banding: &Banding, window: WindowId) -> usize {
    banding.within.iter().find(|(w, _)| *w == window).unwrap().1
}

/// A plan with the strip tiles that stand still in one group, those that move in a second, and the
/// floating tiles beside them.
fn plan_of(tiles: &[OverlayTile]) -> FlightPlan {
    let mut plan = FlightPlan::empty();
    let strip = |moving: bool| -> Vec<RigidMember> {
        tiles
            .iter()
            .filter(|t| !t.floating && !t.companion && is_moving(t.from, t.to) == moving)
            .map(|t| RigidMember { window: t.window, rel: t.from })
            .collect()
    };
    plan.groups = vec![
        RigidGroup { key: GroupKey::Rigid(0), travel: Point::new(0, 0), members: strip(false) },
        RigidGroup { key: GroupKey::Rigid(1), travel: point(-300.0, 0.0), members: strip(true) },
    ];
    plan.floating =
        tiles.iter().filter(|t| t.floating).map(|t| (t.window, t.from, t.to)).collect();
    plan.positions = vec![
        (GroupKey::Rigid(0), Point::new(0, 0)),
        (GroupKey::Rigid(1), point(-300.0, 0.0)),
        (GroupKey::Loose, Point::new(0, 0)),
        (GroupKey::Floating, Point::new(0, 0)),
    ];
    plan
}

#[test]
fn a_resize_places_the_real_windows_earlier() {
    assert!(apply_frames_at(FlightKind::Layout, true) < apply_frames_at(FlightKind::Layout, false));
    assert_eq!(apply_frames_at(FlightKind::Layout, false), APPLY_FRAMES_AT);
    assert_eq!(apply_frames_at(FlightKind::Layout, true), APPLY_FRAMES_AT_RESIZE);
}

#[test]
fn an_entrance_is_a_resize_from_zero_width() {
    let to = rect(100.0, 32.0, 859.0, 1081.0);
    let from = entrance_from(to);
    assert_eq!(from.origin.x, pt(100.0));
    assert_eq!(from.origin.y, pt(32.0));
    assert_eq!(from.size.width, pt(0.0));
    assert_eq!(from.size.height, pt(1081.0));
}

#[test]
fn a_border_window_tracing_a_window_is_its_companion() {
    let window = rect(4.0, 32.0, 859.0, 1081.0);
    let border = (WindowServerId::new(9001), rect(1.0, 29.0, 865.0, 1087.0));
    let neighbor = (WindowServerId::new(9002), rect(867.0, 32.0, 859.0, 1081.0));
    let zoom = (WindowServerId::new(9003), rect(224.0, 95.0, 1280.0, 960.0));
    let found = companion_of(window, &[neighbor, zoom, border], DISPLAY);
    assert_eq!(found.map(|(id, _)| id.as_u32()), Some(9001));
}

#[test]
fn only_a_concentric_hug_counts_as_a_border() {
    let window = rect(4.0, 32.0, 859.0, 1081.0);
    let exact = (WindowServerId::new(1), rect(4.0, 32.0, 859.0, 1081.0));
    assert!(companion_of(window, &[exact], DISPLAY).is_some());
    let shifted = (WindowServerId::new(2), rect(24.0, 32.0, 859.0, 1081.0));
    let larger = (WindowServerId::new(3), rect(-16.0, 12.0, 899.0, 1121.0));
    let smaller = (WindowServerId::new(4), rect(6.0, 34.0, 855.0, 1077.0));
    assert!(companion_of(window, &[shifted, larger, smaller], DISPLAY).is_none());
}

#[test]
fn a_managed_window_is_never_a_border_candidate() {
    let pass: Vec<u32> = vec![102698];
    let cached = vec![WindowId::new(82799, 102682), WindowId::new(0, 9001)];
    let owed = vec![WindowId::new(872, 51462)];
    let managed = managed_server_ids(&pass, &cached, &owed);
    assert!(managed.contains(&102698) && managed.contains(&102682) && managed.contains(&51462));
    assert!(!managed.contains(&9001), "a border seen before is still a border");
    let park = rect(1727.0, 1076.0, 1720.0, 1081.0);
    assert!(!is_off_screen(DISPLAY, park));
    assert!(companion_of(park, &[(WindowServerId::new(102682), park)], DISPLAY).is_some());
}

#[test]
fn a_parked_window_neither_traces_nor_is_traced() {
    let park = rect(fl(DISPLAY.size.width) - 1.0, fl(DISPLAY.size.height) - 1.0, 859.0, 1081.0);
    assert!(is_off_screen(DISPLAY, park));
    let twin = (WindowServerId::new(7), park);
    assert!(companion_of(park, &[twin], DISPLAY).is_none(), "a parked anchor");
    let on_screen = rect(4.0, 32.0, 859.0, 1081.0);
    let border = (WindowServerId::new(8), rect(1.0, 29.0, 865.0, 1087.0));
    assert!(companion_of(on_screen, &[twin, border], DISPLAY).map(|(id, _)| id.as_u32()) == Some(8));
}

#[test]
fn a_pass_confirming_the_destination_is_redundant() {
    let to = rect(4.0, 32.0, 859.0, 1081.0);
    let confirming = rect(4.05, 32.0, 859.0, 1081.0);
    assert_eq!(merge_action(Some(to), confirming), Admitted::Redundant);
}

#[test]
fn a_new_destination_retargets_and_a_new_window_joins() {
    let to = rect(4.0, 32.0, 859.0, 1081.0);
    assert_eq!(
        merge_action(Some(to), rect(865.0, 32.0, 859.0, 1081.0)),
        Admitted::Retargeted
    );
    assert_eq!(merge_action(None, to), Admitted::Joined);
}

#[test]
fn forgetting_a_display_leaves_no_picture_behind() {
    let mut pictures = DisplayPictures {
        shown: None,
        desktop: None,
        bar: None,
        drawn_once: true,
    };
    pictures.forget();
    assert!(pictures.shown.is_none());
    assert!(pictures.desktop.is_none());
    assert!(pictures.bar.is_none());
    assert!(!pictures.drawn_once, "a display we have never drawn has no backdrop to keep");
}

#[test]
fn overlay_space_subtracts_the_overlay_origin() {
    let overlay = rect(0.0, 32.0, 1728.0, 1085.0);
    let window = rect(865.0, 32.0, 859.0, 1081.0);
    assert_eq!(to_overlay_space(window, overlay), rect(865.0, 0.0, 859.0, 1081.0));
}

#[test]
fn a_bounce_extends_the_clock_to_cover_its_return() {
    let bounce = ms(350);
    assert_eq!(clock_for_bounce(None, ms(100), bounce), bounce);
    assert_eq!(
        clock_for_bounce(None, ms(900), bounce),
        ms(900)
    );
    let started = NOW - ms(300);
    let extended = clock_for_bounce(Some(started), ms(350), bounce);
    assert!(extended >= ms(650), "{extended:?}");
    let long = clock_for_bounce(Some(started), secs(5), bounce);
    assert_eq!(long, secs(5));
}

#[test]
fn overlay_space_keeps_negative_offsets_negative() {
    let overlay = rect(0.0, 32.0, 1728.0, 1085.0);
    assert_eq!(
        to_overlay_space(rect(-1680.0, 32.0, 1720.0, 1081.0), overlay),
        rect(-1680.0, 0.0, 1720.0, 1081.0)
    );
}

#[test]
fn overlay_space_handles_a_second_display_at_an_offset() {
    let overlay = rect(1728.0, 32.0, 1728.0, 1085.0);
    assert_eq!(
        to_overlay_space(rect(1728.0, 32.0, 859.0, 1081.0), overlay),
        rect(0.0, 0.0, 859.0, 1081.0)
    );
}

#[test]
fn the_overlay_lifts_when_the_clock_is_done_and_the_tiles_are_presented_there() {
    assert!(!lift_now(false, true, true, false), "the clock has not run out");
    assert!(!lift_now(false, true, true, true), "overdue is meaningless before the clock is done");
    assert!(!lift_now(true, false, true, false), "clock done, render server a frame behind: wait");
    assert!(!lift_now(true, true, false, false), "clock done, a real window still travelling: wait");
    assert!(lift_now(true, true, true, false));
    assert!(lift_now(true, false, false, true), "the grace ran out: lift anyway");
    assert!(LIFT_GRACE < ms(500), "a stall is a hold, not a hang");
}

#[test]
fn progress_is_complete_for_a_zero_length_animation() {
    let running = RunningAnimation {
        tiles: Vec::new(),
        final_frames: Vec::new(),
        frames_applied: false,
        started: Some(NOW),
        duration: 0,
        apply_at: percent(APPLY_FRAMES_AT),
        entrances: Vec::new(),
        awaiting: Vec::new(),
        hold_deadline: None,
        destination_refreshed: false,
        refresh_targets: Vec::new(),
        harvested: Vec::new(),
        focus: None,
        plan: FlightPlan::empty(),
    };
    assert_eq!(share(running.progress(NOW)), 1.0);
    assert!(running.is_done(NOW));
}

#[test]
fn progress_starts_near_zero_and_is_clamped_to_one() {
    let running = RunningAnimation {
        tiles: Vec::new(),
        final_frames: Vec::new(),
        frames_applied: false,
        started: Some(NOW),
        duration: ms(180),
        apply_at: percent(APPLY_FRAMES_AT),
        entrances: Vec::new(),
        awaiting: Vec::new(),
        hold_deadline: None,
        destination_refreshed: false,
        refresh_targets: Vec::new(),
        harvested: Vec::new(),
        focus: None,
        plan: FlightPlan::empty(),
    };
    assert!(share(running.progress(NOW)) < 0.2, "just started");

    let finished = RunningAnimation {
        tiles: Vec::new(),
        final_frames: Vec::new(),
        frames_applied: false,
        started: Some(NOW - secs(5)),
        duration: ms(180),
        apply_at: percent(APPLY_FRAMES_AT),
        entrances: Vec::new(),
        awaiting: Vec::new(),
        hold_deadline: None,
        destination_refreshed: false,
        refresh_targets: Vec::new(),
        harvested: Vec::new(),
        focus: None,
        plan: FlightPlan::empty(),
    };
    assert_eq!(share(finished.progress(NOW)), 1.0);
    assert!(finished.is_done(NOW));
}

#[test]
fn refresh_targets_are_the_two_ends_of_a_focus_change() {
    let tiles = [wid1(1), wid1(2), wid1(3)];
    assert!(refresh_targets(Some(wid1(1)), Some(wid1(1)), &tiles).is_empty());
    assert!(refresh_targets(Some(wid1(1)), None, &tiles).is_empty());
    assert!(refresh_targets(None, None, &tiles).is_empty());
    assert_eq!(refresh_targets(Some(wid1(1)), Some(wid1(2)), &tiles), vec![wid1(2), wid1(1)]);
    assert_eq!(refresh_targets(Some(wid1(9)), Some(wid1(2)), &tiles), vec![wid1(2)]);
    assert_eq!(refresh_targets(Some(wid1(1)), Some(wid1(9)), &tiles), vec![wid1(1)]);
    assert_eq!(refresh_targets(None, Some(wid1(3)), &tiles), vec![wid1(3)]);
    assert!(refresh_targets(Some(wid1(8)), Some(wid1(9)), &tiles).is_empty());
}

#[test]
fn a_strip_pan_with_unchanged_focus_requests_no_refresh() {
    let size = size(859.0, 1081.0);
    let tiles = [
        (wid1(1), WindowServerId::new(10), size),
        (wid1(2), WindowServerId::new(20), size),
        (wid1(3), WindowServerId::new(30), size),
    ];
    let windows: Vec<WindowId> = tiles.iter().map(|(w, _, _)| *w).collect();

    let pan = refresh_targets(Some(wid1(2)), Some(wid1(2)), &windows);
    assert!(pan.is_empty());
    assert!(refresh_requests(&tiles, &pan).1.is_empty(), "nothing is captured");

    let change = refresh_targets(Some(wid1(2)), Some(wid1(3)), &windows);
    let (covered, requests) = refresh_requests(&tiles, &change);
    assert_eq!(covered, vec![wid1(3), wid1(2)]);
    let asked: Vec<u32> = requests.iter().map(|t| t.server_id.as_u32()).collect();
    assert_eq!(asked, vec![30, 20], "exactly the two ends");
}

#[test]
fn a_coalescing_merge_re_requests_frames_it_already_applied() {
    let window = wid(1);
    let a = rect(1727.0, 1116.0, 859.0, 1081.0);
    let b = rect(867.0, 32.0, 859.0, 1081.0);
    let mut running = running_at(None, ms(300));
    running.frames_applied = true;
    running.final_frames = vec![(window, a)];

    let changed = merge_final_frames(&mut running.final_frames, vec![(window, b)]);
    let reapply = reapply_set(
        running.frames_applied,
        running.started.is_some(),
        changed,
        &running.final_frames,
    );

    assert!(changed, "B differs from A");
    assert_eq!(running.final_frames, vec![(window, b)], "latest frame wins");
    assert_eq!(
        reapply,
        Some(vec![(window, b)]),
        "frames applied early and then merged must be re-requested; got {reapply:?}"
    );
}

#[test]
fn a_late_entrance_ends_no_later_than_the_flight() {
    let duration = ms(300);
    let running = running_at(Some(NOW - duration * 6 / 10), duration);
    let remaining = running.remaining(NOW);
    let progress = share(running.progress(NOW));
    assert!(progress >= 0.6 && progress < 0.7, "clock sanity: {progress}");

    let entrance = late_join_duration(running.duration, progress);
    assert!(
        entrance <= remaining,
        "entrance travels {entrance:?} but the overlay lifts in {remaining:?}"
    );
}

#[test]
fn depths_do_not_interleave_groups_across_passes() {
    let (s1, s2, f) = (wid(1), wid(2), wid(3));
    let slot_a = rect(4.0, 32.0, 859.0, 1081.0);
    let slot_b = rect(867.0, 32.0, 859.0, 1081.0);
    let slot_c = rect(1730.0, 32.0, 859.0, 1081.0);
    let zoom = rect(224.0, 95.0, 1280.0, 960.0);

    let pass1 = vec![
        stacked(s1, slot_a, slot_a, Some(1), false),
        stacked(s2, slot_c, slot_b, Some(2), false),
        stacked(f, zoom, zoom, Some(0), true),
    ];
    let mut flight = running_at(None, ms(300));
    for (_, outcome) in flight.merge_pass(&pass1, None) {
        assert_eq!(outcome, Admitted::Joined);
    }

    let pass2 = vec![
        stacked(s1, slot_a, slot_a, Some(1), false),
        stacked(s2, slot_c, slot_c, Some(2), false),
        stacked(f, zoom, zoom, Some(0), true),
    ];
    let outcomes: Vec<Admitted> =
        flight.merge_pass(&pass2, Some(f)).into_iter().map(|(_, o)| o).collect();
    assert_eq!(
        outcomes,
        vec![Admitted::Redundant, Admitted::Retargeted, Admitted::Redundant],
        "S1 confirmed, S2 retargeted, F confirmed"
    );

    let depth = |w: WindowId| flight.tiles.iter().find(|t| t.window == w).unwrap().depth;
    let (d1, d2, df) = (depth(s1), depth(s2), depth(f));
    assert!(
        !(d1 < df && df < d2) && !(d2 < df && df < d1),
        "S1={d1} S2={d2} F={df}: the floating window is between two strip tiles"
    );
    assert!(df < d1 && df < d2, "the floating focus leads, and its group with it");
}

#[test]
fn a_clamped_park_enters_from_the_display_edge() {
    let display = rect(0.0, 0.0, 1728.0, 1117.0);
    let slot = rect(4.0, 32.0, 1720.0, 1081.0);
    let park = rect(1727.0, 1116.0, 1720.0, 1081.0);
    let kiro_real = rect(1727.0, 1076.0, 1720.0, 1081.0);
    let finder_real = rect(1727.0, 1065.0, 859.0, 1081.0);
    let finder_slot = rect(867.0, 32.0, 859.0, 1081.0);
    let finder_park = rect(1727.0, 1116.0, 859.0, 1081.0);

    let cases = [
        ("41pt Kiro park", Some(kiro_real), park, slot),
        ("52pt Finder park", Some(finder_real), finder_park, finder_slot),
        ("park the server already reports at its slot", Some(slot), park, slot),
    ];
    let wrong: Vec<String> = cases
        .iter()
        .filter_map(|(name, real, from, to)| {
            let expected = park_entry_frame(*from, *to, display);
            let got = resolve_start(*real, *from, *to, display, None);
            if got == expected {
                return None;
            }
            Some(format!("{name}: started at {got:?}, wanted {expected:?}"))
        })
        .collect();
    assert!(wrong.is_empty(), "parks not remapped to the edge:\n{}", wrong.join("\n"));
}

#[test]
fn a_pass_where_nothing_drawable_moves_does_not_fly() {
    assert!(
        !worth_flying(false, false),
        "a still-only composition flew, hiding the new window until its picture landed"
    );
}

#[test]
fn a_background_picture_never_swaps_onto_a_moving_tile() {
    let decision = should_swap_mid_flight(
        TileState::Moving { fits: true, resizing: false },
        false,
        false,
        true,
        Some(0.4),
    );
    assert_eq!(
        decision,
        SwapDecision::CacheOnly,
        "an unsolicited picture reached the moving tile: {decision:?}"
    );
}

#[test]
fn a_refresh_landing_late_is_cached_only() {
    let decision = should_swap_mid_flight(
        TileState::MovingRefreshTarget { fits: true, resizing: false },
        false,
        false,
        true,
        Some(0.98),
    );
    assert_eq!(
        decision,
        SwapDecision::CacheOnly,
        "a refresh at 0.98 cut onto the tile: {decision:?}"
    );
}

#[test]
fn no_capture_work_starts_between_frame_zero_and_lift() {
    let cases = [
        (FlightPhase::Moving, CaptureKind::Warm),
        (FlightPhase::Moving, CaptureKind::Desktop),
        (FlightPhase::Holding, CaptureKind::Refresh),
        (FlightPhase::Moving, CaptureKind::Harvest),
    ];
    let allowed: Vec<String> = cases
        .iter()
        .filter(|(phase, kind)| capture_work_allowed(*phase, *kind))
        .map(|(phase, kind)| format!("{phase:?}/{kind:?}"))
        .collect();
    assert!(allowed.is_empty(), "capture work allowed in flight: {}", allowed.join(", "));
}

#[test]
fn a_strip_movement_applies_frames_by_the_midpoint() {
    let at = apply_frames_at(FlightKind::Pan, false);
    assert!(at <= 0.5, "strip apply point is {at}, leaving too little runway");
}

#[test]
fn an_untiled_frame_change_in_flight_marks_frames_stale() {
    assert!(
        mark_stale_on_untiled_change(false, true),
        "frames_applied stays true after an untiled frame change"
    );
}

#[test]
fn the_handover_report_excludes_off_screen_intents_and_counts_misses() {
    let display = rect(0.0, 0.0, 1728.0, 1117.0);
    let parked = wid(108);
    let strip = wid(200);
    let final_frames = vec![
        (parked, rect(1727.0, 1116.0, 859.0, 1081.0)),
        (strip, rect(867.0, 32.0, 859.0, 1081.0)),
    ];
    let real: Vec<(WindowId, Rect)> = [
        (parked, rect(1727.0, 1051.0, 859.0, 1081.0)),
        (strip, rect(870.0, 32.0, 859.0, 1081.0)),
    ]
    .into_iter()
    .collect();
    let report = handover_report(&final_frames, &[parked, strip], &real, display);
    assert!(
        report.count_over == 1 && report.worst_visible_pt == 3.0 && report.worst_wsid == 200,
        "expected count_over=1 worst=3pt wsid=200; got {report:?}"
    );
}

#[test]
fn a_hold_is_short_and_settles_on_the_first_repaint() {
    let limit = reveal_hold_limit(ms(300));
    let p = vec![10u8; 64];
    let q = vec![200u8; 64];
    let settled = chase_settled(None, &p, Some(&q));
    let wrong: Vec<String> = [
        (limit <= HOLD_CAP, format!("reveal_hold_limit(300ms) = {limit:?}")),
        (
            REVEAL_CHASE_INTERVAL == ms(8),
            format!("REVEAL_CHASE_INTERVAL = {REVEAL_CHASE_INTERVAL:?}"),
        ),
        (settled, format!("chase_settled(None, p, Some(q != p)) = {settled}")),
    ]
    .into_iter()
    .filter(|(ok, _)| !ok)
    .map(|(_, why)| why)
    .collect();
    assert!(wrong.is_empty(), "hold is not bounded and cheap:\n{}", wrong.join("\n"));
}

#[test]
fn an_entrances_frame_goes_out_at_frame_zero_so_its_picture_fits() {
    let newcomer = wid(51462);
    let slot = rect(867.0, 32.0, 859.0, 1081.0);
    let final_frames = vec![
        (wid(1), rect(4.0, 32.0, 859.0, 1081.0)),
        (newcomer, slot),
        (wid(2), rect(1730.0, 32.0, 859.0, 1081.0)),
    ];
    let mut running = flight(None);
    running.final_frames = final_frames.clone();
    let (entrance, waiting) = entrance_reservation(newcomer, slot, false);
    running.entrances.push(entrance);
    let awaiting: Vec<_> = waiting.into_iter().collect();
    let sent = running
        .extend_hold(&awaiting, false, ms(300), NOW)
        .expect("a held merge sends frames");
    assert_eq!(sent, final_frames, "the newcomer's slot went out with the rest");
    assert!(running.frames_applied);
    assert_eq!(running.frames_due(p(1.0)), None, "nothing left for the apply point");
}

#[test]
fn should_swap_mid_flight_full_table() {
    let progresses = [None, Some(0.3), Some(0.59), Some(0.6), Some(0.9)];
    let mut swaps = 0usize;
    for state in STATES {
        for settled in [false, true] {
            for same in [false, true] {
                for same_source in [false, true] {
                    for progress in progresses {
                        let got =
                            should_swap_mid_flight(state, settled, same, same_source, progress);
                        assert_eq!(
                            got,
                            expected(state, settled, same, same_source, progress),
                            "{state:?} settled={settled} same={same} same_source={same_source} progress={progress:?}"
                        );
                        if matches!(got, SwapDecision::Swap(_)) {
                            swaps += 1;
                        }
                    }
                }
            }
        }
    }
    assert_eq!(swaps, 6 + 8, "the table has exactly the early refresh and reveal swaps");
}

#[test]
fn swap_only_for_the_early_refresh_target() {
    let mut rng = Gen(95);
    let mut swaps = 0usize;
    for _ in 0..RUNS {
        let state = STATES[rng.below(STATES.len() as u64) as usize];
        let settled = rng.coin();
        let same = rng.coin();
        let same_source = rng.coin();
        let progress = rng.share();
        let decision = should_swap_mid_flight(state, settled, same, same_source, progress);
        if let SwapDecision::Swap(reason) = decision {
            swaps += 1;
            match state {
                TileState::MovingRefreshTarget { fits: true, .. } => {
                    assert_eq!(reason, SwapReason::Refresh, "seed 95: {state:?}");
                    assert!(!same, "seed 95: swapped a picture rendering like the cache");
                    assert!(same_source, "seed 95: swapped a picture from another route");
                }
                TileState::Reveal { fits: true } => {
                    assert_eq!(reason, SwapReason::Reveal, "seed 95: {state:?}");
                    assert!(settled, "seed 95: an unsettled reveal swapped");
                }
                other => panic!("seed 95: swapped onto {other:?}"),
            }
            assert!(progress.is_some_and(|p: f64| p < 0.6), "seed 95: swap at {progress:?}");
        }
        if matches!(state, TileState::Moving { .. }) {
            assert_eq!(decision, SwapDecision::CacheOnly, "seed 95: {state:?}");
        }
    }
    assert!(swaps > 0, "generator sanity: no Swap in {RUNS} runs");
}

#[test]
fn a_route_change_alone_never_swaps_the_refresh() {
    for settled in [false, true] {
        for resizing in [false, true] {
            let decision = should_swap_mid_flight(
                TileState::MovingRefreshTarget { fits: true, resizing },
                settled,
                false,
                false,
                Some(0.3),
            );
            assert_eq!(
                decision,
                SwapDecision::CacheOnly,
                "settled={settled} resizing={resizing}: a route change swapped"
            );
        }
    }
}

#[test]
fn the_same_route_rendering_differently_swaps_the_refresh() {
    assert_eq!(
        should_swap_mid_flight(
            TileState::MovingRefreshTarget { fits: true, resizing: false },
            false,
            false,
            true,
            Some(0.3),
        ),
        SwapDecision::Swap(SwapReason::Refresh)
    );
}

#[test]
fn a_refresh_swap_implies_the_same_route() {
    let mut rng = Gen(97);
    let mut swaps = 0usize;
    for _ in 0..RUNS {
        let state = STATES[rng.below(STATES.len() as u64) as usize];
        let same_source = rng.coin();
        let progress = rng.share();
        let decision =
            should_swap_mid_flight(state, rng.coin(), rng.coin(), same_source, progress);
        if decision == SwapDecision::Swap(SwapReason::Refresh) {
            swaps += 1;
            assert!(same_source, "seed 97: {state:?} at {progress:?} swapped across routes");
        }
    }
    assert!(swaps > 0, "generator sanity: no refresh swap in {RUNS} runs");
}

#[test]
fn the_destination_refresh_uses_one_route() {
    let size = size(859.0, 1081.0);
    let tiles = vec![
        (wid(1), WindowServerId::new(10), size),
        (wid(2), WindowServerId::new(20), size),
        (wid(3), WindowServerId::new(30), size),
    ];
    let (covered, requests) = refresh_requests(&tiles, &[wid(2), wid(1), wid(9)]);
    assert_eq!(covered, vec![wid(2), wid(1)], "an unknown window is not a target");
    let asked: Vec<(WindowId, u32)> =
        requests.iter().map(|t| (t.window, t.server_id.as_u32())).collect();
    assert_eq!(asked, vec![(wid(2), 20), (wid(1), 10)], "one request per window");
    assert!(requests.iter().all(|t| t.size == size));
    assert!(refresh_requests(&tiles, &[]).1.is_empty());
}

#[test]
fn one_refresh_per_flight_at_the_midpoint_and_none_at_frame_zero() {
    let mut holding = flight(None);
    holding.awaiting.push((wid(1), size(859.0, 1081.0)));
    assert!(!holding.take_refresh(p(0.0)), "a hold does not refresh");
    assert!(!holding.destination_refreshed);

    let mut running = flight(Some(NOW));
    let fired: Vec<f64> = (0..=100)
        .map(|i| i as f64 / 100.0)
        .filter(|&progress| running.take_refresh(p(progress)))
        .collect();
    assert_eq!(fired, vec![0.5], "refresh slots taken: {fired:?}");
    assert!(running.destination_refreshed);
    assert!(!(0..=100).any(|i| running.take_refresh(p(i as f64 / 100.0))), "spent");
    assert_eq!(REFRESH_DESTINATION_AT, 0.5);
    assert_eq!(REFRESH_APPLY_BEFORE, 0.6);
}

#[test]
fn tile_state_ranks_hold_over_refresh_over_tile() {
    let slot = rect(4.0, 32.0, 859.0, 1081.0);
    let parked = rect(-1720.0, 32.0, 859.0, 1081.0);
    let grown = rect(4.0, 32.0, 1147.0, 1081.0);
    let picture = test_snapshot(slot.size);
    let mut running = flight(None);
    running.tiles.push(tile_of(wid(1), parked, slot));
    running.tiles.push(tile_of(wid(2), slot, grown));
    running.tiles.push(tile_of(wid(3), parked, slot));
    running.awaiting.push((wid(2), grown.size));
    running.refresh_targets.push(wid(3));
    let (entrance, waiting) = entrance_reservation(wid(4), slot, false);
    running.entrances.push(entrance);
    running.awaiting.extend(waiting);

    assert_eq!(
        running.tile_state(wid(1), &picture),
        TileState::Moving { fits: true, resizing: false }
    );
    assert_eq!(
        running.tile_state(wid(2), &picture),
        TileState::Reveal { fits: false },
        "a grow's hold"
    );
    assert_eq!(
        running.tile_state(wid(2), &test_snapshot(grown.size)),
        TileState::Reveal { fits: true },
        "a grow's hold, its reveal landing"
    );
    assert_eq!(
        running.tile_state(wid(3), &picture),
        TileState::MovingRefreshTarget { fits: true, resizing: false }
    );
    assert_eq!(running.tile_state(wid(4), &picture), TileState::Awaiting, "an entrance");
    assert_eq!(running.tile_state(wid(5), &picture), TileState::NotTiled);

    running.awaiting.retain(|(w, _)| *w != wid(2));
    assert_eq!(
        running.tile_state(wid(2), &picture),
        TileState::Moving { fits: false, resizing: true }
    );
    running.refresh_targets.push(wid(2));
    assert_eq!(
        running.tile_state(wid(2), &test_snapshot(grown.size)),
        TileState::MovingRefreshTarget { fits: true, resizing: true }
    );
}

#[test]
fn capture_work_allowed_full_table() {
    let mut allowed = 0usize;
    for phase in PHASES {
        for kind in KINDS {
            let got = capture_work_allowed(phase, kind);
            assert_eq!(got, expected_allowed(phase, kind), "{phase:?}/{kind:?}");
            allowed += got as usize;
        }
    }
    assert_eq!(allowed, 11);
}

#[test]
fn in_flight_capture_work_is_only_a_chase_or_the_refresh() {
    let mut rng = Gen(96);
    let mut allowed = 0usize;
    for _ in 0..RUNS {
        let phase = PHASES[rng.below(PHASES.len() as u64) as usize];
        let kind = KINDS[rng.below(KINDS.len() as u64) as usize];
        if phase == FlightPhase::Idle {
            assert!(capture_work_allowed(phase, kind), "seed 96: idle refused {kind:?}");
            continue;
        }
        if capture_work_allowed(phase, kind) {
            allowed += 1;
            assert!(
                matches!(kind, CaptureKind::Chase | CaptureKind::Refresh)
                    || (phase == FlightPhase::FrameZero
                        && kind == CaptureKind::NeedsCapture),
                "seed 96: {kind:?} allowed at {phase:?}"
            );
            if kind == CaptureKind::Refresh {
                assert_eq!(phase, FlightPhase::Moving, "seed 96: a refresh while holding");
            }
        }
    }
    assert!(allowed > 0, "generator sanity: nothing allowed in {RUNS} runs");
}

#[test]
fn a_mid_flight_warm_is_deferred_once_per_window_and_drained_once() {
    let mut deferred: Vec<SnapshotTarget> = Vec::new();
    defer_warm(&mut deferred, &vec![target(1, 859.0), target(2, 859.0)]);
    defer_warm(&mut deferred, &vec![target(1, 1147.0), target(3, 859.0)]);
    let windows: Vec<WindowId> = deferred.iter().map(|t| t.window).collect();
    assert_eq!(windows, vec![wid(1), wid(2), wid(3)], "one entry per window");
    assert_eq!(deferred[0].size.width, pt(1147.0), "the later request replaces the earlier");

    let drained = std::mem::take(&mut deferred);
    assert_eq!(drained.len(), 3);
    assert!(deferred.is_empty(), "a second drain has nothing");

    let mut deferred_desktop = true;
    assert!(std::mem::take(&mut deferred_desktop));
    assert!(!std::mem::take(&mut deferred_desktop), "drained once");
}

#[test]
fn the_desktop_render_is_wanted_when_missing_misfit_or_stale() {
    let display = (1728.0, 1117.0);
    let fresh = ms(500);
    let stale = secs(3);
    assert!(desktop_render_wanted(None, display), "missing");
    assert!(desktop_render_wanted(Some((fresh, (2560.0, 1440.0))), display), "misfit");
    assert!(desktop_render_wanted(Some((stale, display)), display), "stale");
    assert!(!desktop_render_wanted(Some((fresh, display)), display), "in hand");
}

#[test]
fn finish_harvests_each_animated_window_at_most_once() {
    let animated = [wid(1), wid(2), wid(3), wid(4), wid(2)];
    let mut harvested: Vec<WindowId> = Vec::new();
    rini::keyed::add(&mut harvested, wid(1));
    assert_eq!(harvested.len(), 1, "the chase's dressing");
    rini::keyed::add(&mut harvested, wid(1));
    assert_eq!(harvested.len(), 1, "a second harvest for the same window is skipped");
    let requested = [wid(3)];
    let dressed: Vec<WindowId> = vec![wid(4)];
    assert_eq!(
        finish_harvest_set(&animated, &harvested, &requested, &dressed),
        vec![wid(2)]
    );
    assert!(
        finish_harvest_set(&[], &harvested, &requested, &dressed).is_empty(),
        "nothing animated, nothing harvested"
    );
}

#[test]
fn a_flight_starts_with_nothing_harvested() {
    let running = flight(None);
    assert!(running.harvested.is_empty());
    assert!(!capture_work_allowed(running.phase(), CaptureKind::Harvest));
}

#[test]
fn apply_points_by_flight_kind() {
    assert_eq!(apply_frames_at(FlightKind::Layout, false), 0.75);
    assert_eq!(apply_frames_at(FlightKind::Layout, true), 0.5);
    assert_eq!(apply_frames_at(FlightKind::Pan, false), APPLY_FRAMES_AT_PAN);
    assert_eq!(APPLY_FRAMES_AT_PAN, 0.0, "a strip movement places its windows at frame zero");
    assert_eq!(apply_frames_at(FlightKind::Pan, true), 0.5);
}

#[test]
fn frames_go_stale_on_a_tile_or_an_untiled_change() {
    assert!(!mark_stale_on_untiled_change(false, false));
    assert!(mark_stale_on_untiled_change(true, false));
    assert!(mark_stale_on_untiled_change(false, true));
    assert!(mark_stale_on_untiled_change(true, true));
}

#[test]
fn an_untiled_frame_change_in_flight_clears_frames_applied() {
    let slot = rect(4.0, 32.0, 859.0, 1081.0);
    let park_a = rect(1727.0, 1116.0, 859.0, 1081.0);
    let park_b = rect(-858.0, 1116.0, 859.0, 1081.0);
    let mut running = flight(Some(NOW));
    running.tiles.push(tile_of(wid(1), rect(867.0, 32.0, 859.0, 1081.0), slot));
    running.final_frames = vec![(wid(1), slot), (wid(2), park_a)];
    running.frames_applied = true;

    let frames_changed =
        merge_final_frames(&mut running.final_frames, vec![(wid(1), slot), (wid(2), park_b)]);
    let outcomes = running.merge_pass(&vec![tile_of(wid(1), slot, slot)], None);
    let changed = outcomes.iter().any(|(_, o)| *o != Admitted::Redundant);
    assert!(frames_changed && !changed, "the pass changes only the untiled frame");
    running.absorb_in_flight_change(changed, frames_changed);
    assert!(!running.frames_applied, "an untiled change left frames_applied set");

    running.frames_applied = true;
    let frames_changed =
        merge_final_frames(&mut running.final_frames, vec![(wid(1), slot), (wid(2), park_b)]);
    let outcomes = running.merge_pass(&vec![tile_of(wid(1), slot, slot)], None);
    let changed = outcomes.iter().any(|(_, o)| *o != Admitted::Redundant);
    running.absorb_in_flight_change(changed, frames_changed);
    assert!(running.frames_applied, "a redundant pass cleared frames_applied");
}

#[test]
fn handover_report_counts_on_screen_misses_only() {
    let slot = rect(867.0, 32.0, 859.0, 1081.0);
    let clamp = [
        (wid(108), rect(1727.0, 1116.0, 859.0, 1081.0), rect(1727.0, 1051.0, 859.0, 1081.0)),
        (wid(200), slot, rect(870.0, 32.0, 859.0, 1081.0)),
    ];
    let (f, t, r) = measured(&clamp);
    let report = handover_report(&f, &t, &r, DISPLAY);
    assert_eq!(report.total, 1, "108 is excluded from the measured set");
    assert_eq!(report.count_over, 1);
    assert_eq!(report.worst_visible_pt, 3.0);
    assert_eq!(report.worst_wsid, 200);

    let park_miss = [
        (wid(1), rect(1728.0, 32.0, 1720.0, 1081.0), rect(-1718.0, 32.0, 1720.0, 1081.0)),
        (wid(2), rect(4.0, 32.0, 1720.0, 1081.0), rect(4.0, 32.0, 1720.0, 1081.0)),
    ];
    let (f, t, r) = measured(&park_miss);
    let report = handover_report(&f, &t, &r, DISPLAY);
    assert_eq!(report.total, 1);
    assert_eq!(report.count_over, 0, "a park intent is not measured");
    assert_eq!(report.worst_visible_pt, 0.0);

    let two = [
        (wid(1), rect(4.0, 32.0, 859.0, 1081.0), rect(9.0, 32.0, 859.0, 1081.0)),
        (wid(2), slot, rect(867.0, 40.0, 859.0, 1081.0)),
        (wid(3), rect(1730.0, 32.0, 859.0, 1081.0), rect(1730.0, 32.0, 859.0, 1081.0)),
    ];
    let (f, t, r) = measured(&two);
    let report = handover_report(&f, &t, &r, DISPLAY);
    assert_eq!(report.total, 2, "wid 3 starts past the edge: excluded");
    assert_eq!(report.count_over, 2);
    assert_eq!(report.worst_visible_pt, 8.0);
    assert_eq!(report.worst_wsid, 2);

    let clean = [(wid(1), slot, slot), (wid(2), rect(4.0, 32.0, 859.0, 1081.0), rect(5.0, 32.0, 859.0, 1081.0))];
    let (f, t, r) = measured(&clean);
    let report = handover_report(&f, &t, &r, DISPLAY);
    assert_eq!(report.total, 2);
    assert_eq!(report.count_over, 0, "1pt is within the threshold");
    assert_eq!(report.worst_visible_pt, 1.0);
}

#[test]
fn handover_report_matches_the_brute_force_over_on_screen_intents() {
    let mut rng = Gen(97);
    let mut over_seen = 0usize;
    for _ in 0..RUNS {
        let count = rng.below(6) as usize + 1;
        let mut frames = Vec::with_capacity(count);
        for i in 1..=count {
            let intended = if rng.coin() {
                rng.on_screen()
            } else {
                rng.park(size(859.0, 1081.0))
            };
            let shift = if rng.coin() { 0.0 } else { rng.pt(-80.0, 80.0) };
            let actual = Rect::new(
                point(fl(intended.origin.x) + shift, fl(intended.origin.y) + shift / 2.0),
                intended.size,
            );
            frames.push((wid(i as u32), intended, actual));
        }
        let (f, t, r) = measured(&frames);
        let report = handover_report(&f, &t, &r, DISPLAY);

        let visible: Vec<_> = frames
            .iter()
            .filter(|(_, intended, _)| {
                !is_off_screen(DISPLAY, *intended)
            })
            .collect();
        let error = |intended: &Rect, actual: &Rect| {
            fl((actual.origin.x - intended.origin.x)
                .abs()
                .max((actual.origin.y - intended.origin.y).abs()))
        };
        let expected_over =
            visible.iter().filter(|(_, i, a)| error(i, a) > 2.0).count();
        let expected_worst =
            visible.iter().map(|(_, i, a)| error(i, a)).fold(0.0, f64::max);
        assert_eq!(report.total, visible.len(), "seed 97");
        assert_eq!(report.count_over, expected_over, "seed 97");
        assert_eq!(report.worst_visible_pt, expected_worst, "seed 97");
        if report.worst_visible_pt > 0.0 {
            let worst = frames
                .iter()
                .find(|(w, _, _)| w.idx == report.worst_wsid)
                .expect("seed 97: the worst names a measured window");
            assert!(
                !is_off_screen(DISPLAY, worst.1),
                "seed 97: the worst came from a park"
            );
        }
        over_seen += expected_over;
    }
    assert!(over_seen > 0, "generator sanity: no misses in {RUNS} runs");
}

#[test]
fn chase_settled_on_a_match_or_a_repaint() {
    let p = vec![10u8; 64];
    let q = vec![200u8; 64];
    assert!(!chase_settled(None, &p, None), "nothing to compare against");
    assert!(chase_settled(Some(&p), &p, None), "two consecutive match");
    assert!(chase_settled(None, &p, Some(&q)), "differs from the pre-resize picture");
    assert!(!chase_settled(None, &p, Some(&p)), "still the old rendering");
    assert!(chase_settled(Some(&q), &p, Some(&q)), "a repaint settles even after a change");
}

#[test]
fn the_hold_is_capped_at_a_blink() {
    for long in [180u64, 300, 375, 500, 1000] {
        let d = ms(long);
        assert_eq!(reveal_hold_limit(d), HOLD_CAP, "{long}ms flight");
        assert!(reveal_hold_limit(d) <= reveal_hold_limit_old(d), "{long}ms flight");
    }
    assert_eq!(HOLD_CAP, ms(300));
    assert_eq!(REVEAL_CHASE_INTERVAL, ms(8));
    assert_eq!(REVEAL_CHASE_INTERVAL * REVEAL_CHASE_ATTEMPTS as u64, secs(1));
}

#[test]
fn the_hold_cap_holds_for_any_duration() {
    let mut rng = Gen(98);
    for _ in 0..RUNS {
        let d = ms(rng.below(3000));
        let limit = reveal_hold_limit(d);
        assert!(limit <= HOLD_CAP, "seed 98: {d:?} -> {limit:?}");
        assert!(limit <= reveal_hold_limit_old(d), "seed 98: {d:?} -> {limit:?}");
    }
}

#[test]
fn a_placeholder_tile_takes_its_reveal_early() {
    let small = rect(4.0, 32.0, 859.0, 1081.0);
    let grown = rect(4.0, 32.0, 1147.0, 1081.0);
    let mut running = flight(Some(NOW));
    let mut placeholder = tile_of(wid(1), small, grown);
    placeholder.snapshot = test_snapshot(small.size);
    running.tiles.push(placeholder);
    assert!(running.awaiting.is_empty(), "the deadline cleared the hold");

    let reveal = test_snapshot(grown.size);
    assert_eq!(running.tile_state(wid(1), &reveal), TileState::Reveal { fits: true });
    assert_eq!(
        running.tile_state(wid(1), &test_snapshot(small.size)),
        TileState::Reveal { fits: false },
        "a background picture at the old size is not the reveal"
    );
    let state = running.tile_state(wid(1), &reveal);
    assert_eq!(
        should_swap_mid_flight(state, true, false, true, Some(0.3)),
        SwapDecision::Swap(SwapReason::Reveal)
    );
    assert_eq!(
        should_swap_mid_flight(state, true, false, false, Some(0.3)),
        SwapDecision::Swap(SwapReason::Reveal),
        "the chase's framed picture is the truth for a grow, whatever the cached route"
    );
    assert_eq!(
        should_swap_mid_flight(state, false, false, true, Some(0.3)),
        SwapDecision::CacheOnly,
        "an unsettled capture can be the unpainted surface"
    );
    assert_eq!(
        should_swap_mid_flight(state, true, false, true, Some(0.6)),
        SwapDecision::CacheOnly,
        "too late: a cut this close to lift reads as flicker"
    );
    running.tiles[0].snapshot = reveal;
    assert_eq!(
        running.tile_state(wid(1), &reveal),
        TileState::Moving { fits: true, resizing: true }
    );
}

#[test]
fn engine_an_entrances_frame_goes_out_at_frame_zero_so_its_picture_fits() {
    let slot = rect(867.0, 32.0, 859.0, 1081.0);
    let neighbour = (wid(1), rect(4.0, 32.0, 859.0, 1081.0));
    let newcomer = wid(51462);
    let final_frames = vec![neighbour, (newcomer, slot)];

    let mut running = flight(None);
    running.final_frames = final_frames.clone();
    let (entrance, waiting) = entrance_reservation(newcomer, slot, false);
    running.entrances.push(entrance);
    let awaiting: Vec<(WindowId, Size)> = waiting.into_iter().collect();
    let now = NOW;
    let requested = running.extend_hold(&awaiting, false, ms(300), now);
    assert_eq!(requested, Some(final_frames.clone()), "the slot went out with the rest");
    assert!(running.frames_applied);
    running.started = Some(now);
    assert_eq!(running.frames_due(p(running.apply_at as f64 / 100.0)), None, "nothing left to send");

    let mut running = flight(Some(NOW));
    running.final_frames = final_frames.clone();
    assert_eq!(running.frames_due(p(running.apply_at as f64 / 100.0 - 0.01)), None);
    assert_eq!(running.frames_due(p(running.apply_at as f64 / 100.0)), Some(final_frames.clone()));
    assert!(running.frames_applied);
    assert_eq!(running.frames_due(p(1.0)), None, "sent once");
}

#[test]
fn an_entrance_needs_the_fit_like_a_grow() {
    let slot = rect(867.0, 32.0, 859.0, 1081.0);
    let newcomer = wid(51462);
    let mut running = flight(None);
    let (entrance, waiting) = entrance_reservation(newcomer, slot, false);
    running.entrances.push(entrance);
    running.awaiting.extend(waiting);
    let spawn = test_snapshot(size(572.0, 540.0));
    assert_eq!(running.claim(newcomer, &spawn), None, "a spawn-size picture is refused");
    assert_eq!(running.entrances.len(), 1);
    assert_eq!(running.awaiting.len(), 1);
    assert_eq!(
        running.claim(newcomer, &test_snapshot(slot.size)),
        Some(Claimed::Released),
        "a slot-size picture is the entrance"
    );
    assert!(running.entrances.is_empty() && running.awaiting.is_empty());
    let tile = running.tiles.iter().find(|t| t.window == newcomer).expect("tile");
    assert_eq!((tile.from, tile.to), (entrance_from(slot), slot));
}

#[test]
fn an_awaited_picture_is_claimed_before_start_and_admitted_after() {
    let mut rng = Gen(92);
    for _ in 0..RUNS {
        let settled = rng.coin();
        let same = rng.coin();
        let same_source = rng.coin();
        let progress = rng.below(1001) as f64 / 1000.0;
        assert_eq!(
            should_swap_mid_flight(TileState::Awaiting, settled, same, same_source, None),
            SwapDecision::Claim,
            "seed 92: settled={settled} same={same}"
        );
        assert_eq!(
            should_swap_mid_flight(
                TileState::Awaiting,
                settled,
                same,
                same_source,
                Some(progress)
            ),
            SwapDecision::Admit,
            "seed 92: settled={settled} same={same} progress={progress}"
        );
    }
    let mut flight = flight(None);
    assert_eq!(flight.progress_if_started(NOW), None, "holding: the claim path");
    flight.started = Some(NOW);
    assert!(flight.progress_if_started(NOW).is_some(), "moving: the admit path");
}

#[test]
fn an_unfitting_or_identical_picture_is_cached_only() {
    let mut rng = Gen(94);
    for _ in 0..RUNS {
        let settled = rng.coin();
        let resizing = rng.coin();
        let progress = rng.share();
        assert_eq!(
            should_swap_mid_flight(
                TileState::NotTiled,
                settled,
                rng.coin(),
                rng.coin(),
                progress
            ),
            SwapDecision::CacheOnly,
            "seed 94: no tile"
        );
        for state in [
            TileState::Moving { fits: false, resizing },
            TileState::MovingRefreshTarget { fits: false, resizing },
        ] {
            assert_eq!(
                should_swap_mid_flight(state, settled, rng.coin(), rng.coin(), progress),
                SwapDecision::CacheOnly,
                "seed 94: {state:?} does not fit"
            );
        }
        for state in [
            TileState::Moving { fits: true, resizing },
            TileState::MovingRefreshTarget { fits: true, resizing },
        ] {
            assert_eq!(
                should_swap_mid_flight(state, settled, true, rng.coin(), progress),
                SwapDecision::CacheOnly,
                "seed 94: {state:?} renders like the cached picture"
            );
        }
    }
}

#[test]
fn layout_apply_points_are_unchanged() {
    for any_resize in [false, true] {
        assert_eq!(
            apply_frames_at(FlightKind::Layout, any_resize),
            apply_frames_at_old(any_resize),
            "any_resize={any_resize}"
        );
    }
    assert_eq!(apply_frames_at_old(false), 0.75);
    assert_eq!(apply_frames_at_old(true), 0.5);
}

#[test]
fn warming_and_the_desktop_render_are_allowed_once_the_flight_is_dropped() {
    assert!(capture_work_allowed(FlightPhase::Idle, CaptureKind::Warm));
    assert!(capture_work_allowed(FlightPhase::Idle, CaptureKind::Desktop));
    assert!(capture_work_allowed(FlightPhase::Idle, CaptureKind::NeedsCapture));

    let mut running = flight(None);
    assert_eq!(running.phase(), FlightPhase::FrameZero);
    running.awaiting.push((wid(1), size(859.0, 1081.0)));
    assert_eq!(running.phase(), FlightPhase::Holding);
    running.started = Some(NOW);
    assert_eq!(running.phase(), FlightPhase::Moving);
    running.awaiting.clear();
    assert_eq!(running.phase(), FlightPhase::Moving);
}

#[test]
fn every_landed_picture_reaches_the_cache_and_never_downgrades() {
    let mut rng = Gen(93);
    let mut refused = 0usize;
    let mut decisions: Vec<SwapDecision> = Vec::new();
    for _ in 0..RUNS {
        let mut cache: SnapshotCache<WindowSnapshot> = SnapshotCache::new();
        let size = rng.on_screen().size;
        for _ in 0..rng.below(4) + 1 {
            let incoming = if rng.coin() { test_snapshot(size) } else { clipped(size) };
            let before = cache.get(wid(1)).map(|s| s.coverage);
            let progress = rng.share();
            let decision = should_swap_mid_flight(
                any_state(&mut rng),
                rng.coin(),
                rng.coin(),
                rng.coin(),
                progress,
            );
            decisions.push(decision);
            cache.insert(wid(1), incoming);
            let held = cache.get(wid(1)).expect("seed 93: every landing leaves an entry");
            if should_replace(before, incoming.coverage) {
                assert_eq!(held.coverage, incoming.coverage, "seed 93: taken");
            } else {
                refused += 1;
                assert_eq!(held.coverage, before.unwrap(), "seed 93: kept");
            }
            if before.is_some_and(|c| c.is_usable()) {
                assert!(held.is_usable(), "seed 93: a usable picture was downgraded");
            }
        }
    }
    assert!(refused > RUNS / 8, "generator sanity: {refused} downgrades refused");
    let seen = |wanted: fn(&SwapDecision) -> bool| decisions.iter().any(wanted);
    assert!(seen(|d| *d == SwapDecision::Claim), "generator sanity: no Claim");
    assert!(seen(|d| *d == SwapDecision::Admit), "generator sanity: no Admit");
    assert!(seen(|d| matches!(d, SwapDecision::Swap(_))), "generator sanity: no Swap");
    assert!(seen(|d| *d == SwapDecision::CacheOnly), "generator sanity: no CacheOnly");
}

#[test]
fn one_destination_refresh_fires_at_the_midpoint() {
    let mut running = flight(Some(NOW));
    let fired: Vec<f64> = (0..=100)
        .map(|i| i as f64 / 100.0)
        .filter(|&progress| running.take_refresh(p(progress)))
        .collect();
    let late: Vec<f64> = fired.iter().copied().filter(|p| *p >= 0.5).collect();
    assert_eq!(late, vec![0.5], "refreshes at or after the midpoint: {fired:?}");
    assert!(fired.len() <= 2, "more than the schedule allows: {fired:?}");
    assert_eq!(REFRESH_DESTINATION_AT, 0.5);
    assert!(refresh_targets(Some(wid(1)), Some(wid(2)), &[wid(1), wid(2), wid(3)]).len() <= 2);
    assert!(capture_work_allowed(FlightPhase::Moving, CaptureKind::Refresh));
    assert!(!(0..=100).any(|i| running.take_refresh(p(i as f64 / 100.0))));
}

#[test]
fn a_grow_holds_bounded_and_flies_a_placeholder_at_the_deadline() {
    let mut rng = Gen(91);
    for _ in 0..RUNS {
        let small = rng.on_screen();
        let to = rect(
            fl(small.origin.x),
            32.0,
            fl(small.size.width) + rng.pt(20.0, 800.0),
            fl(small.size.height),
        );
        let snapshot = test_snapshot(small.size);
        assert!(outgrows(snapshot.coverage.covered, to.size), "seed 91: a grow");
        let awaiting = vec![(wid(1), to.size)];
        let (holding, chase, _) = frame_zero_work(&awaiting, &[], &[], &[]);
        assert!(holding, "seed 91");
        assert_eq!(chase, awaiting, "seed 91");

        let duration = ms(rng.pt(100.0, 600.0) as u64);
        let limit = reveal_hold_limit(duration);
        let now = NOW;
        let mut running = flight(None);
        let mut tile = stacked(wid(1), small, to, Some(0), false);
        tile.snapshot = snapshot;
        running.tiles.push(tile);
        running.awaiting = awaiting.clone();
        running.frames_applied = holding;
        running.hold_deadline = Some(now + limit);
        assert_eq!(running.phase(), FlightPhase::Holding, "seed 91");
        assert_eq!(
            hold_wait(running.hold_deadline, now),
            Some(limit.max(ms(10))),
            "seed 91: waits out the hold"
        );
        assert_eq!(
            hold_wait(running.hold_deadline, now + limit),
            None,
            "seed 91: at the deadline the placeholder flies"
        );
        assert_eq!(running.claim(wid(1), &snapshot), None, "seed 91: too small to claim");
        assert_eq!(running.awaiting, awaiting, "seed 91: the hold stands");
        assert_eq!(
            running.claim(wid(1), &test_snapshot(to.size)),
            Some(Claimed::Released),
            "seed 91: the reveal is claimed"
        );
        assert!(running.tiles[0].snapshot.fits(to.size), "seed 91: drawn from the reveal");
        assert_eq!(running.phase(), FlightPhase::FrameZero, "seed 91: released, not moving");
    }
    assert_eq!(hold_wait(None, NOW), None, "no deadline, no wait");
}

#[test]
fn a_strip_window_with_no_usable_picture_is_placed_but_not_drawn() {
    let mut rng = Gen(95);
    for _ in 0..RUNS {
        let slot = rng.on_screen();
        let mut cache: SnapshotCache<WindowSnapshot> = SnapshotCache::new();
        cache.insert(wid(2), clipped(slot.size));
        assert!(cache.usable(wid(1)).is_none(), "seed 95: never captured");
        assert!(cache.usable(wid(2)).is_none(), "seed 95: a sliver");
        assert!(cache.usable(wid(3)).is_none());
        cache.insert(wid(3), test_snapshot(slot.size));
        assert!(cache.usable(wid(3)).is_some(), "seed 95: the drawn neighbour");

        let (from, to) = surface_travel(slot, point(0.0, 0.0), point(861.0, 0.0), false);
        let mut running = flight(None);
        running.tiles.push(stacked(wid(3), from, to, Some(0), false));
        running.final_frames = vec![(wid(1), to), (wid(2), to), (wid(3), to)];
        let tiled: Vec<WindowId> = running.tiles.iter().map(|t| t.window).collect();
        let real: Vec<(WindowId, Rect)> =
            running.final_frames.clone();
        let report = handover_report(&running.final_frames, &tiled, &real, DISPLAY);
        let measured = usize::from(!is_off_screen(DISPLAY, to));
        assert_eq!(report.total, measured, "seed 95: only the drawn window is measured");
        assert_eq!(report.count_over, 0);

        let size = (slot.size.width, slot.size.height);
        assert!(needs_capture(None, size), "seed 95: warmed after the movement");
        assert!(needs_capture(Some(clipped(slot.size).coverage), size));
        assert!(!needs_capture(Some(test_snapshot(slot.size).coverage), size));
    }
}

#[test]
fn a_pan_holds_for_nothing() {
    assert_eq!(frame_zero_work(&[], &[], &[], &[]), (false, Vec::new(), Vec::new()));
    let mut rng = Gen(96);
    for _ in 0..RUNS {
        let count = rng.below(4) as u32 + 1;
        let travel = point(rng.pt(-1720.0, 1720.0), 0.0);
        let mut running = flight(None);
        running.apply_at = percent(apply_frames_at(FlightKind::Pan, false));
        for i in 1..=count {
            let frame = rng.on_screen();
            let (from, to) = surface_travel(frame, point(0.0, 0.0), travel, false);
            running.tiles.push(stacked(wid(i), from, to, Some(i as usize), false));
            running.final_frames.push((wid(i), to));
        }
        assert!(running.awaiting.is_empty() && running.entrances.is_empty(), "seed 96");
        assert_eq!(running.phase(), FlightPhase::FrameZero, "seed 96");
        assert!(!running.frames_applied, "seed 96: nothing applied at frame zero");
        assert_eq!(hold_wait(running.hold_deadline, NOW), None, "seed 96");
        assert_eq!(running.claim(wid(1), &test_snapshot(size(859.0, 1081.0))), None);
    }
}

#[test]
fn a_plain_move_starts_from_the_window_servers_frame() {
    let mut rng = Gen(31);
    let mut checked = 0;
    for _ in 0..RUNS {
        let from = rng.on_screen();
        let to = rect(rng.pt(0.0, 900.0), 32.0, fl(from.size.width), fl(from.size.height));
        let real = rect(
            fl(from.origin.x) + rng.pt(20.0, 300.0),
            32.0,
            fl(from.size.width),
            fl(from.size.height),
        );
        if real.same_as(to) || is_off_screen(DISPLAY, real) {
            continue;
        }
        checked += 1;
        assert_eq!(
            resolve_start(Some(real), from, to, DISPLAY, None),
            real,
            "seed 31: {from:?} -> {to:?}"
        );
    }
    assert!(checked > RUNS / 2, "generator sanity: {checked} of {RUNS} in scope");
    assert_eq!(apply_frames_at(FlightKind::Layout, false), APPLY_FRAMES_AT);
}

#[test]
fn a_missing_or_synthetic_start_falls_back_to_the_request() {
    let from = rect(4.0, 32.0, 859.0, 1081.0);
    let to = rect(867.0, 32.0, 859.0, 1081.0);
    assert_eq!(resolve_start(None, from, to, DISPLAY, None), from);
    assert_eq!(resolve_start(Some(to), from, to, DISPLAY, None), from);
}

#[test]
fn a_merge_before_frames_were_applied_re_requests_nothing() {
    let mut rng = Gen(35);
    for _ in 0..RUNS {
        let current = rng.on_screen();
        let mut flight = running_with(vec![(wid(1), current)]);
        let incoming = if rng.coin() { rng.on_screen() } else { current };
        let action = merge_action(Some(current), incoming);
        let expected =
            if current.same_as(incoming) { Admitted::Redundant } else { Admitted::Retargeted };
        assert_eq!(action, expected);
        let changed = merge_final_frames(&mut flight.final_frames, vec![(wid(1), incoming)]);
        assert_eq!(changed, action == Admitted::Retargeted);
        assert_eq!(flight.final_frames, vec![(wid(1), incoming)], "latest frame wins");
        for in_flight in [false, true] {
            assert_eq!(reapply_set(false, in_flight, changed, &flight.final_frames), None);
        }
    }
    assert_eq!(merge_action(None, rect(4.0, 32.0, 859.0, 1081.0)), Admitted::Joined);
}

#[test]
fn a_held_merge_re_requests_the_flights_frames() {
    let mut rng = Gen(36);
    let mut checked = 0;
    for _ in 0..RUNS {
        let count = rng.below(3) as u32 + 1;
        let frames: Vec<(WindowId, Rect)> =
            (1..=count).map(|i| (wid(i), rng.on_screen())).collect();
        let mut flight = running_with(frames.clone());
        if rng.coin() {
            flight.awaiting.push((wid(1), size(100.0, 100.0)));
        }
        let mut incoming: Vec<(WindowId, Size)> = Vec::new();
        for i in 1..=count {
            if rng.coin() {
                incoming.push((wid(i), size(rng.pt(200.0, 1720.0), 1081.0)));
            }
        }
        if incoming.is_empty() {
            continue;
        }
        checked += 1;
        let now = NOW;
        let duration = ms(rng.pt(100.0, 600.0) as u64);
        let requested = flight.extend_hold(&incoming, false, duration, now);
        assert_eq!(requested, Some(frames.clone()));
        assert!(flight.frames_applied);
        assert_eq!(flight.hold_deadline, Some(now + reveal_hold_limit(duration)));
        for (window, size) in &incoming {
            let held: Vec<_> =
                flight.awaiting.iter().filter(|(w, _)| w == window).collect();
            assert_eq!(held.len(), 1, "one hold per window");
            assert_eq!(held[0].1, *size, "latest size wins");
        }
    }
    assert!(checked > RUNS / 2, "generator sanity: {checked} of {RUNS} in scope");
}

#[test]
fn a_hold_never_stops_a_flight_in_motion() {
    let now = NOW;
    let duration = ms(300);
    let mut flight = running_with(vec![(wid(1), rect(4.0, 32.0, 859.0, 1081.0))]);
    flight.started = Some(now);
    let grow = vec![(wid(1), size(1720.0, 1081.0))];
    assert_eq!(flight.extend_hold(&grow, true, duration, now), None);
    assert!(!flight.frames_applied);
    assert!(flight.awaiting.is_empty());
    assert!(flight.hold_deadline.is_none());
    flight.started = None;
    assert_eq!(flight.extend_hold(&Vec::new(), false, duration, now), None);
    assert!(!flight.frames_applied);
}

#[test]
fn a_pan_translates_a_parked_window_without_remapping_it() {
    let mut rng = Gen(33);
    for _ in 0..RUNS {
        let size = size(rng.pt(400.0, 1720.0), 1081.0);
        let frame = rng.park(size);
        let from_offset = point(rng.pt(-4000.0, 4000.0), 0.0);
        let to_offset = point(rng.pt(-4000.0, 4000.0), 0.0);
        let (from, to) = surface_travel(frame, from_offset, to_offset, false);
        assert_eq!(from.origin.x, frame.origin.x - from_offset.x);
        assert_eq!(to.origin.x, frame.origin.x - to_offset.x);
        assert_eq!(from.size, frame.size);
        assert_eq!(to.origin.x - from.origin.x, from_offset.x - to_offset.x);
        assert_eq!(from.origin.y, frame.origin.y, "a pan keeps the park's row");
        let entry = park_entry_frame(frame, to, DISPLAY);
        if from_offset.x.abs() != pt(1.0) {
            assert_ne!(from, entry, "the pan path does not consult the park remap");
        }
    }
}

#[test]
fn a_restack_bands_the_focused_group_in_front() {
    let mut rng = Gen(38);
    for _ in 0..RUNS {
        let count = rng.below(6) as u32 + 1;
        let mut tiles: Vec<OverlayTile> = (1..=count)
            .map(|i| {
                let known = rng.coin();
                let server_order = if known { Some(rng.below(20) as usize) } else { None };
                let floating = rng.coin();
                stacked(wid(i), rng.on_screen(), rng.on_screen(), server_order, floating)
            })
            .collect();
        let focus = wid(rng.below(count as u64) as u32 + 1);
        let focus_floating = tiles.iter().find(|t| t.window == focus).unwrap().floating;
        restack(&mut tiles, Some(focus));
        for tile in &tiles {
            let in_front = tile.floating == focus_floating;
            let band = if in_front { 0..GROUP_STRIDE } else { GROUP_STRIDE..2 * GROUP_STRIDE };
            assert!(
                band.contains(&tile.depth),
                "seed 38: {:?} floating={} depth={} focus floating={focus_floating}",
                tile.window,
                tile.floating,
                tile.depth
            );
            if tile.window == focus {
                assert_eq!(tile.depth, 0, "seed 38: the focused window leads");
            }
        }
    }
}

#[test]
fn a_focus_off_the_pass_puts_the_strip_in_front() {
    let slot = rect(4.0, 32.0, 859.0, 1081.0);
    let mut tiles = vec![
        stacked(wid(1), slot, slot, Some(4), false),
        stacked(wid(2), slot, slot, Some(0), true),
        stacked(wid(3), slot, slot, None, false),
    ];
    restack(&mut tiles, Some(wid(99)));
    let depths: Vec<usize> = tiles.iter().map(|t| t.depth).collect();
    assert_eq!(depths, vec![5, GROUP_STRIDE + 1, GROUP_STRIDE - 1]);
    restack(&mut tiles, None);
    let no_focus: Vec<usize> = tiles.iter().map(|t| t.depth).collect();
    assert_eq!(no_focus, depths);
}

#[test]
fn an_absurd_server_order_stays_inside_its_band() {
    let slot = rect(4.0, 32.0, 859.0, 1081.0);
    let mut tiles = vec![
        stacked(wid(1), slot, slot, Some(usize::MAX), false),
        stacked(wid(2), slot, slot, Some(usize::MAX), true),
    ];
    restack(&mut tiles, None);
    assert_eq!(tiles[0].depth, GROUP_STRIDE - 1);
    assert_eq!(tiles[1].depth, MAX_TILE_DEPTH);
}

#[test]
fn a_parked_or_scrolled_off_close_is_not_worth_animating() {
    let mut rng = Gen(39);
    for _ in 0..RUNS {
        let size = size(rng.pt(400.0, 1720.0), 1081.0);
        let park = rng.park(size);
        assert!(!worth_animating(park, entrance_from(park), DISPLAY), "park {park:?}");
        let off = rect(fl(DISPLAY.size.width) + rng.pt(1.0, 9000.0), 32.0, fl(size.width), fl(size.height));
        assert!(!worth_animating(off, entrance_from(off), DISPLAY), "off strip {off:?}");
        let on = rng.on_screen();
        assert!(worth_animating(on, entrance_from(on), DISPLAY), "on screen {on:?}");
    }
    let slot = rect(4.0, 32.0, 859.0, 1081.0);
    assert!(!worth_animating(rect(4.0, 32.0, 0.0, 0.0), slot, DISPLAY), "zero area");
    assert!(worth_animating(rect(1727.0, 1116.0, 859.0, 1081.0), slot, DISPLAY));
}

#[test]
fn forgetting_a_window_empties_the_cache_even_while_a_clone_is_held() {
    let mut cache: SnapshotCache<WindowSnapshot> = SnapshotCache::new();
    let size = size(859.0, 1081.0);
    cache.insert(wid(1), test_snapshot(size));
    let held = cache.usable(wid(1)).copied().expect("inserted");
    cache.forget(wid(1));
    assert!(cache.usable(wid(1)).is_none());
    assert!(held.is_usable());
    assert!(held.fits(size));
}

#[test]
fn a_fresh_flight_with_an_entrance_applies_and_chases_at_frame_zero() {
    let mut rng = Gen(311);
    for _ in 0..RUNS {
        let to = rng.on_screen();
        let (entrance, waiting) = entrance_reservation(wid(3), to, false);
        assert_eq!(entrance.window, wid(3));
        assert_eq!(entrance.to, to);
        let awaiting: Vec<(WindowId, Size)> = waiting.into_iter().collect();
        let (apply_now, chase, _) = frame_zero_work(&awaiting, &[], &[], &[]);
        assert!(apply_now);
        assert!(chase.contains(&(wid(3), to.size)), "the entrance is chased: {chase:?}");

        let awaiting = vec![(wid(1), rng.on_screen().size)];
        let (apply_now, chase, _) = frame_zero_work(&awaiting, &[], &[], &[]);
        assert!(apply_now);
        assert_eq!(chase, awaiting);
    }
    assert_eq!(frame_zero_work(&[], &[], &[], &[]), (false, Vec::new(), Vec::new()));
}

#[test]
fn a_later_focus_rebands_every_tile_in_the_flight() {
    let (s1, s2, f) = (wid(1), wid(2), wid(3));
    let slot_a = rect(4.0, 32.0, 859.0, 1081.0);
    let slot_b = rect(867.0, 32.0, 859.0, 1081.0);
    let slot_c = rect(1730.0, 32.0, 859.0, 1081.0);
    let zoom = rect(224.0, 95.0, 1280.0, 960.0);
    let mut flight = unstarted();

    flight.merge_pass(
        &vec![
            stacked(s1, slot_a, slot_a, Some(0), false),
            stacked(s2, slot_c, slot_b, Some(2), false),
            stacked(f, zoom, zoom, Some(1), true),
        ],
        None,
    );
    assert_eq!(depth(&flight, s1), 1, "pass 1: the strip leads, server order within");
    assert_eq!(depth(&flight, s2), 3);
    assert_eq!(depth(&flight, f), GROUP_STRIDE + 2, "the floating window behind the strip");

    flight.merge_pass(
        &vec![
            stacked(s1, slot_a, slot_a, Some(0), false),
            stacked(s2, slot_c, slot_c, Some(2), false),
            stacked(f, zoom, zoom, Some(1), true),
        ],
        Some(f),
    );
    assert_eq!(flight.focus, Some(f), "latest focus is recorded");
    assert_eq!(depth(&flight, f), 0, "the focused floating window leads");
    assert_eq!(depth(&flight, s1), GROUP_STRIDE + 1, "redundant tile: rebanded anyway");
    assert_eq!(depth(&flight, s2), GROUP_STRIDE + 3, "retargeted tile: rebanded");
}

#[test]
fn a_pass_without_a_focus_keeps_the_flights_focus() {
    let slot = rect(4.0, 32.0, 859.0, 1081.0);
    let zoom = rect(224.0, 95.0, 1280.0, 960.0);
    let mut flight = unstarted();
    flight.merge_pass(
        &vec![
            stacked(wid(1), slot, slot, Some(1), false),
            stacked(wid(2), zoom, zoom, Some(0), true),
        ],
        Some(wid(2)),
    );
    flight.merge_pass(&vec![stacked(wid(1), slot, slot, Some(1), false)], None);
    assert_eq!(flight.focus, Some(wid(2)));
    assert_eq!(depth(&flight, wid(2)), 0);
    assert_eq!(depth(&flight, wid(1)), GROUP_STRIDE + 2, "the floating focus still leads");
}

#[test]
fn a_new_server_order_on_a_later_pass_moves_the_tile_within_its_band() {
    let slot = rect(4.0, 32.0, 859.0, 1081.0);
    let slot_b = rect(867.0, 32.0, 859.0, 1081.0);
    let zoom = rect(224.0, 95.0, 1280.0, 960.0);
    let mut flight = unstarted();
    flight.merge_pass(
        &vec![
            stacked(wid(1), slot, slot, Some(0), false),
            stacked(wid(2), zoom, zoom, Some(1), true),
            stacked(wid(3), slot_b, slot_b, Some(2), false),
        ],
        None,
    );
    flight.merge_pass(
        &vec![
            stacked(wid(1), slot, slot_b, Some(4), false),
            stacked(wid(2), zoom, entrance_from(zoom), Some(0), true),
            stacked(wid(3), slot_b, slot_b, Some(5), false),
        ],
        Some(wid(2)),
    );
    assert_eq!(depth(&flight, wid(2)), 0, "the floating focus leads");
    assert_eq!(depth(&flight, wid(3)), GROUP_STRIDE + 3, "redundant: old order kept");
    assert_eq!(depth(&flight, wid(1)), GROUP_STRIDE + 5, "retargeted: the new order");
}

#[test]
fn an_entrance_tile_leads_its_own_band() {
    let slot = rect(4.0, 32.0, 859.0, 1081.0);
    let zoom = rect(224.0, 95.0, 1280.0, 960.0);
    let mut flight = unstarted();
    flight.merge_pass(
        &vec![
            stacked(wid(1), slot, slot, Some(3), false),
            stacked(wid(2), zoom, zoom, Some(7), true),
        ],
        Some(wid(2)),
    );
    let entering = stacked(wid(5), entrance_from(slot), slot, Some(0), false);
    flight.merge_pass(&vec![entering], None);
    assert_eq!(depth(&flight, wid(2)), 0, "the floating focus leads");
    assert_eq!(depth(&flight, wid(5)), GROUP_STRIDE + 1, "the entrance leads the strip");
    assert_eq!(depth(&flight, wid(1)), GROUP_STRIDE + 4);
}

#[test]
fn a_companion_keeps_the_depth_it_was_given() {
    let slot = rect(4.0, 32.0, 859.0, 1081.0);
    let mut companion = stacked(wid(8), slot, slot, None, false);
    companion.companion = true;
    companion.depth = 3;
    let mut tiles = vec![stacked(wid(1), slot, slot, Some(2), false), companion];
    restack(&mut tiles, None);
    assert_eq!(tiles[0].depth, 3);
    assert_eq!(tiles[1].depth, 3, "not sent to the back for its `None` order");
}

#[test]
fn the_unfocused_group_is_never_in_front_of_the_focused_group() {
    let mut rng = Gen(33);
    for _ in 0..RUNS {
        let count = rng.below(6) as u32 + 1;
        let mut flight = unstarted();
        let passes = rng.below(3) + 1;
        let mut focus = None;
        for _ in 0..passes {
            let mut tiles: Vec<OverlayTile> = Vec::new();
            for i in 1..=count {
                if rng.below(4) == 0 {
                    continue;
                }
                let known = rng.coin();
                let server_order = if known { Some(rng.below(20) as usize) } else { None };
                let floating = i % 2 == 0;
                let to = rng.on_screen();
                tiles.push(stacked(wid(i), rng.on_screen(), to, server_order, floating));
            }
            let pass_focus = match rng.below(4) {
                0 => None,
                1 => Some(wid(99)),
                _ => Some(wid(rng.below(count as u64) as u32 + 1)),
            };
            if pass_focus.is_some() {
                focus = pass_focus;
            }
            flight.merge_pass(&tiles, pass_focus);
        }
        assert_eq!(flight.focus, focus, "seed 33: latest named focus wins");
        let focus_floating = focus
            .and_then(|f| flight.tiles.iter().find(|t| t.window == f))
            .is_some_and(|t| t.floating);
        for tile in &flight.tiles {
            assert!(tile.depth <= MAX_TILE_DEPTH, "seed 33: in front of the backdrop");
            if Some(tile.window) == focus {
                assert_eq!(tile.depth, 0, "seed 33: the focused tile leads");
            }
        }
        for front in flight.tiles.iter().filter(|t| t.floating == focus_floating) {
            for back in flight.tiles.iter().filter(|t| t.floating != focus_floating) {
                assert!(
                    front.depth < back.depth,
                    "seed 33: {:?} (floating={}) behind {:?} (floating={}) with focus {focus:?}",
                    front.window,
                    front.floating,
                    back.window,
                    back.floating
                );
            }
        }
    }
}

#[test]
fn reapply_set_truth_table() {
    let frames = vec![(wid(1), rect(4.0, 32.0, 859.0, 1081.0))];
    for frames_applied in [false, true] {
        for in_flight in [false, true] {
            for changed in [false, true] {
                let expected = (frames_applied && !in_flight && changed)
                    .then_some(frames.clone());
                assert_eq!(
                    reapply_set(frames_applied, in_flight, changed, &frames),
                    expected,
                    "frames_applied={frames_applied} in_flight={in_flight} changed={changed}"
                );
            }
        }
    }
}

#[test]
fn an_entrance_always_holds_at_its_destination_size() {
    let mut rng = Gen(61);
    for _ in 0..RUNS {
        let to = rng.on_screen();
        let floating = rng.coin();
        let (entrance, waiting) = entrance_reservation(wid(2), to, floating);
        assert_eq!(waiting, Some((wid(2), to.size)), "seed 61: {to:?}");
        assert_eq!(entrance.to, to);
        assert_eq!(entrance.floating, floating);
    }
}

#[test]
fn a_claimed_entrance_joins_the_frame_zero_composition() {
    let slot = rect(867.0, 32.0, 859.0, 1081.0);
    let neighbour = rect(4.0, 32.0, 859.0, 1081.0);
    let mut flight = holding_for(wid(2), slot, false);
    flight.tiles.push(stacked(wid(1), neighbour, neighbour, Some(1), false));
    flight.awaiting.push((wid(1), neighbour.size));
    flight.focus = Some(wid(2));

    let claimed = flight.claim(wid(2), &test_snapshot(slot.size));

    assert_eq!(claimed, Some(Claimed::Held), "the grow's hold remains");
    assert!(flight.started.is_none(), "still at frame zero");
    assert_eq!(flight.awaiting, vec![(wid(1), neighbour.size)]);
    assert!(flight.entrances.is_empty(), "the reservation is consumed");
    let tile = flight.tiles.iter().find(|t| t.window == wid(2)).expect("tile composed");
    assert_eq!(tile.from, entrance_from(slot), "zero width at its left edge");
    assert_eq!(tile.to, slot);
    assert!(tile.focused);
    assert_eq!(tile.depth, 0, "the entrance leads: raised on open");
    let other = flight.tiles.iter().find(|t| t.window == wid(1)).unwrap();
    assert_eq!(other.depth, 2, "its neighbour keeps the server's order, within the band");
}

#[test]
fn the_last_claim_releases_the_flight_and_a_repeat_is_not_a_hold() {
    let slot = rect(867.0, 32.0, 859.0, 1081.0);
    let mut flight = holding_for(wid(2), slot, true);
    assert_eq!(flight.claim(wid(2), &test_snapshot(slot.size)), Some(Claimed::Released));
    assert!(flight.awaiting.is_empty());
    assert_eq!(flight.tiles.len(), 1);
    assert_eq!(
        flight.claim(wid(2), &test_snapshot(slot.size)),
        Some(Claimed::Refreshed),
        "a repeat refreshes the composed tile's picture and releases nothing"
    );
    assert_eq!(flight.tiles.len(), 1, "no second tile");
}

#[test]
fn a_small_picture_is_not_claimed_nor_is_a_moving_flight() {
    let slot = rect(867.0, 32.0, 859.0, 1081.0);
    let mut flight = holding_for(wid(2), slot, false);
    assert_eq!(flight.claim(wid(2), &test_snapshot(size(200.0, 200.0))), None);
    assert_eq!(flight.awaiting.len(), 1, "the hold goes on");
    assert_eq!(flight.entrances.len(), 1);
    assert!(flight.tiles.is_empty(), "nothing composed from the small picture");

    let mut flight = holding_for(wid(2), slot, false);
    flight.started = Some(NOW);
    assert_eq!(flight.claim(wid(2), &test_snapshot(slot.size)), None);
    assert!(flight.tiles.is_empty());
}

#[test]
fn a_grows_reveal_picture_replaces_its_tiles_snapshot() {
    let small = rect(4.0, 32.0, 400.0, 1081.0);
    let big = rect(4.0, 32.0, 1720.0, 1081.0);
    let mut flight = flight(None);
    let mut tile = stacked(wid(1), small, big, Some(0), false);
    tile.snapshot = test_snapshot(small.size);
    flight.tiles.push(tile);
    flight.awaiting.push((wid(1), big.size));
    assert_eq!(flight.claim(wid(1), &test_snapshot(big.size)), Some(Claimed::Released));
    assert!(flight.tiles[0].snapshot.fits(big.size));
    assert_eq!(flight.tiles.len(), 1);
}

#[test]
fn a_late_entrance_travels_for_the_remaining_flight() {
    let slot = rect(867.0, 32.0, 859.0, 1081.0);
    let mut flight = holding_for(wid(2), slot, false);
    assert!(flight.let_in(wid(2), &test_snapshot(slot.size), NOW).is_none(), "still holding");
    assert_eq!(flight.entrances.len(), 1);

    flight.awaiting.clear();
    flight.started = Some(NOW - flight.duration * 6 / 10);
    let remaining = flight.remaining(NOW);
    let (tile, travel) = flight.let_in(wid(2), &test_snapshot(slot.size), NOW).expect("admitted");
    assert_eq!(tile.from, entrance_from(slot));
    assert_eq!(tile.to, slot);
    assert!(travel <= remaining, "{travel:?} outlives {remaining:?}");
    assert!(travel < flight.duration / 2, "not the full duration: {travel:?}");
    assert!(flight.entrances.is_empty());
    assert!(flight.let_in(wid(2), &test_snapshot(slot.size), NOW).is_none(), "taken once");
}

#[test]
fn a_late_joiner_never_outlives_the_flight() {
    let mut rng = Gen(62);
    for _ in 0..RUNS {
        let duration = ms(rng.pt(100.0, 600.0) as u64);
        let progress = rng.below(1000) as f64 / 1000.0;
        let travel = late_join_duration(duration, progress);
        let remaining = duration - (duration as f64 * progress) as u64;
        assert!(
            travel <= remaining + 1,
            "seed 62: {travel:?} > {remaining:?} at {progress}"
        );
        let mut flight = flight(Some(NOW - (duration as f64 * progress) as u64));
        flight.duration = duration;
        flight.entrances.push(PendingEntrance {
            window: wid(2),
            to: rng.on_screen(),
            floating: false,
        });
        let to = flight.entrances[0].to;
        let (_, admitted) = flight.let_in(wid(2), &test_snapshot(to.size), NOW).unwrap();
        assert!(admitted <= flight.duration, "seed 62: {admitted:?}");
    }
    assert_eq!(late_join_duration(ms(300), 1.0), 0);
    assert_eq!(late_join_duration(ms(300), 1.5), 0);
}

#[test]
fn a_coalescing_merge_re_requests_exactly_the_merged_frames() {
    let mut rng = Gen(63);
    let mut re_requested = 0;
    for _ in 0..RUNS {
        let count = rng.below(4) as u32 + 1;
        let mut flight = flight(None);
        flight.frames_applied = true;
        flight.final_frames = (1..=count).map(|i| (wid(i), rng.on_screen())).collect();
        let passes = rng.below(3) + 1;
        let mut expected: Vec<(WindowId, Rect)> = flight.final_frames.clone();
        for _ in 0..passes {
            let mut incoming: Vec<(WindowId, Rect)> = Vec::new();
            for i in 1..=count + 1 {
                match rng.below(3) {
                    0 => continue,
                    1 => incoming.push((wid(i), rng.on_screen())),
                    _ => {
                        if let Some(&(_, current)) = expected.iter().find(|(w, _)| *w == wid(i)) {
                            incoming.push((wid(i), current));
                        }
                    }
                }
            }
            let mut expected_changed = false;
            for (window, frame) in &incoming {
                match expected.iter_mut().find(|(w, _)| w == window) {
                    Some(current) => {
                        expected_changed |= !current.1.same_as(*frame);
                        current.1 = *frame;
                    }
                    None => {
                        expected.push((*window, *frame));
                        expected_changed = true;
                    }
                }
            }
            let changed = merge_final_frames(&mut flight.final_frames, incoming);
            assert_eq!(changed, expected_changed, "seed 63");
            let reapply =
                reapply_set(flight.frames_applied, flight.started.is_some(), changed, &flight.final_frames);
            if changed {
                re_requested += 1;
                assert_eq!(reapply, Some(expected.clone()), "seed 63: merged set, latest wins");
            } else {
                assert_eq!(reapply, None, "seed 63: nothing changed, nothing re-requested");
            }
        }
    }
    assert!(re_requested > RUNS / 2, "generator sanity: {re_requested} re-requests");
}

#[test]
fn a_floating_open_over_a_still_strip_does_not_fly() {
    let s1 = rect(0.0, 32.0, 860.0, 1081.0);
    let s2 = rect(867.0, 32.0, 859.0, 1081.0);
    let tiles = vec![
        stacked(wid(1), s1, s1, Some(1), false),
        stacked(wid(2), s2, s2, Some(2), false),
    ];
    let zoom = rect(224.0, 95.0, 1280.0, 960.0);
    let (entrance, waiting) = entrance_reservation(wid(3), zoom, true);
    assert_eq!(entrance.window, wid(3));
    assert!(waiting.is_some(), "the entrance is reserved but never drawn here");
    assert!(!worth_flying(moving_drawable(&tiles), false));
}

#[test]
fn a_strip_open_that_moves_a_neighbour_flies() {
    let before = rect(0.0, 32.0, 1720.0, 1081.0);
    let after = rect(0.0, 32.0, 860.0, 1081.0);
    let tiles = vec![stacked(wid(1), before, after, Some(1), false)];
    let (_, waiting) = entrance_reservation(wid(2), rect(867.0, 32.0, 859.0, 1081.0), false);
    assert!(waiting.is_some());
    assert!(worth_flying(moving_drawable(&tiles), false));
}

#[test]
fn a_pan_flies() {
    let frame = rect(867.0, 32.0, 859.0, 1081.0);
    let (from, to) =
        surface_travel(frame, point(0.0, 0.0), point(867.0, 0.0), false);
    let tiles = vec![stacked(wid(1), from, to, Some(1), false)];
    assert!(worth_flying(moving_drawable(&tiles), false));
}

#[test]
fn a_still_pass_joining_a_running_flight_flies() {
    let s1 = rect(0.0, 32.0, 860.0, 1081.0);
    let tiles = vec![stacked(wid(1), s1, s1, Some(1), false)];
    assert!(worth_flying(moving_drawable(&tiles), true));
    assert!(worth_flying(false, true), "even with nothing drawable at all");
}

#[test]
fn any_moving_tile_is_enough_to_fly() {
    let mut rng = Gen(81);
    let mut grounded = 0usize;
    for _ in 0..RUNS {
        let count = rng.below(4) as usize + 1;
        let all_still = rng.coin();
        let mut tiles = Vec::with_capacity(count);
        let mut any_moving = false;
        for i in 0..count {
            let from = rng.on_screen();
            let to = if all_still || rng.coin() {
                from
            } else {
                rect(fl(from.origin.x) + rng.pt(1.0, 400.0), 32.0, fl(from.size.width), fl(from.size.height))
            };
            any_moving |= is_moving(from, to);
            tiles.push(stacked(wid(i as u32 + 1), from, to, Some(i), rng.coin()));
        }
        let running = rng.coin();
        let flies = worth_flying(moving_drawable(&tiles), running);
        assert_eq!(flies, any_moving || running, "seed 81");
        if !flies {
            grounded += 1;
        }
    }
    assert!(grounded > RUNS / 20, "generator sanity: {grounded} grounded");
}

#[test]
fn a_later_pass_retargets_a_reserved_entrance() {
    let slot = rect(fl(EXTERNAL.origin.x) + 867.0, fl(EXTERNAL.origin.y) + 32.0, 859.0, 1081.0);
    let pan = point(-574.0, 0.0);
    let (newcomer, _) =
        entrance_reservation(wid(51462), to_overlay_space(slot, EXTERNAL), false);
    let (untouched, _) = entrance_reservation(
        wid(51463),
        to_overlay_space(rect(2000.0, 32.0, 400.0, 1081.0), EXTERNAL),
        false,
    );
    let mut entrances = vec![newcomer, untouched];
    let frames = vec![(wid(1), rect(4.0, 32.0, 859.0, 1081.0)), (wid(51462), shifted(slot, pan))];

    assert_eq!(retarget_entrances(&mut entrances, &frames, EXTERNAL), 1);
    assert_eq!(entrances[0].to, to_overlay_space(shifted(slot, pan), EXTERNAL));
    assert_eq!(entrances[1].to, untouched.to, "no frame for it: left alone");
    assert_eq!(retarget_entrances(&mut entrances, &frames, EXTERNAL), 0, "already there");
}

#[test]
fn group_relative_and_overlay_of_are_inverses() {
    let f = rect(867.0, 32.0, 859.0, 1081.0);
    let p = point(-574.0, 12.0);
    assert_eq!(overlay_of(group_relative(f, p), p), f);
    assert_eq!(group_relative(f, p), rect(1441.0, 20.0, 859.0, 1081.0));
    assert_eq!(group_relative(f, point(0.0, 0.0)), f, "at install rel is from");
    let mut rng = Gen(3);
    for _ in 0..RUNS {
        let f = rng.on_screen();
        let p = point(rng.pt(-2000.0, 2000.0), rng.pt(-2000.0, 2000.0));
        assert_eq!(overlay_of(group_relative(f, p), p), f);
        assert_eq!(group_relative(f, p).size, f.size);
    }
}

#[test]
fn a_grow_still_enters_awaiting() {
    let a = column(0.0);
    let grown = rect(fl(a.origin.x), fl(a.origin.y), fl(a.size.width) + 600.0, fl(a.size.height));
    let snapshot = test_snapshot(a.size);
    assert!(outgrows(snapshot.coverage.covered, grown.size));
    let mut running = RunningAnimation {
        tiles: Vec::new(),
        final_frames: vec![(wid(1), grown)],
        frames_applied: false,
        started: None,
        duration: ms(350),
        apply_at: 0,
        entrances: Vec::new(),
        awaiting: Vec::new(),
        hold_deadline: None,
        destination_refreshed: false,
        refresh_targets: Vec::new(),
        harvested: Vec::new(),
        focus: None,
        plan: FlightPlan::empty(),
    };
    let frames = running.extend_hold(&vec![(wid(1), grown.size)], false, ms(350), NOW);
    assert_eq!(running.awaiting, vec![(wid(1), grown.size)]);
    assert!(running.hold_deadline.is_some());
    assert_eq!(frames, Some(vec![(wid(1), grown)]), "the held frames go out under the overlay");
}

#[test]
fn entrance_plan_travels_from_spawn_or_reserves_with_a_reason() {
    let slot = rect(867.0, 32.0, 859.0, 1081.0);
    let spawn = rect(300.0, 200.0, 640.0, 480.0);
    assert_eq!(
        entrance_plan(Some(spawn), slot, true, true),
        EntranceDecision::Travel { from: spawn, to: slot }
    );
    assert_eq!(entrance_plan(None, slot, true, true), EntranceDecision::Reserve(ReserveReason::NoServerFrame));
    assert_eq!(
        entrance_plan(Some(rect(300.0, 200.0, 0.0, 0.0)), slot, true, true),
        EntranceDecision::Reserve(ReserveReason::ZeroServerFrame)
    );
    assert_eq!(entrance_plan(Some(spawn), slot, false, true), EntranceDecision::Reserve(ReserveReason::CaptureUnusable));
    assert_eq!(entrance_plan(Some(spawn), slot, true, false), EntranceDecision::Reserve(ReserveReason::CaptureBudget));
}

#[test]
fn frame_zero_work_sends_all_frames_when_holding_and_only_slots_otherwise() {
    let slot = rect(867.0, 32.0, 859.0, 1081.0);
    let grown = rect(4.0, 32.0, 1200.0, 1081.0);
    let final_frames = vec![(wid(1), grown), (wid(2), slot)];
    let (holding, chase_set, now) = frame_zero_work(
        &[(wid(1), grown.size)],
        &[(wid(2), slot.size)],
        &final_frames,
        &[(wid(2), slot)],
    );
    assert!(holding);
    assert_eq!(now, final_frames, "holding: every frame goes out under the overlay");
    assert_eq!(chase_set, vec![(wid(1), grown.size), (wid(2), slot.size)]);

    let (holding, chase_set, now) =
        frame_zero_work(&[], &[(wid(2), slot.size)], &final_frames, &[(wid(2), slot)]);
    assert!(!holding);
    assert_eq!(now, vec![(wid(2), slot)], "not holding: the newcomer's slot alone");
    assert_eq!(chase_set, vec![(wid(2), slot.size)]);

    let (holding, chase_set, now) = frame_zero_work(&[], &[], &final_frames, &[]);
    assert!(!holding && chase_set.is_empty() && now.is_empty());
}

#[test]
fn a_spawn_entrance_flies_without_a_hold_and_is_a_reveal_in_waiting() {
    let slot = rect(867.0, 32.0, 859.0, 1081.0);
    let spawn = rect(300.0, 200.0, 400.0, 300.0);
    let EntranceDecision::Travel { from, to } = entrance_plan(Some(spawn), slot, true, true) else {
        panic!("travels");
    };
    let tile = OverlayTile {
        window: wid(9),
        from,
        to,
        snapshot: test_snapshot(spawn.size),
        floating: false,
        server_order: Some(0),
        depth: 0,
        companion: false,
        focused: true,
    };
    let awaiting: Vec<(WindowId, Size)> = Vec::new();
    let (holding, chase_set, now) =
        frame_zero_work(&awaiting, &[(wid(9), slot.size)], &[(wid(9), slot)], &[(wid(9), slot)]);
    assert!(!holding);
    assert_eq!(now, vec![(wid(9), slot)]);
    let running = RunningAnimation {
        tiles: vec![tile],
        final_frames: vec![(wid(9), slot)],
        frames_applied: holding,
        started: None,
        duration: ms(350),
        apply_at: 0,
        entrances: Vec::new(),
        awaiting: awaiting.clone(),
        hold_deadline: holding.then_some(NOW + reveal_hold_limit(ms(350))),
        destination_refreshed: false,
        refresh_targets: Vec::new(),
        harvested: Vec::new(),
        focus: Some(wid(9)),
        plan: FlightPlan::empty(),
    };
    assert!(running.awaiting.is_empty());
    assert!(!chase_set.is_empty());
    assert_eq!(running.hold_deadline, None);
    assert_eq!(running.phase(), FlightPhase::FrameZero);
    assert_eq!(
        running.tile_state(wid(9), &test_snapshot(spawn.size)),
        TileState::Reveal { fits: false },
        "the spawn picture does not cover the slot"
    );
    assert_eq!(running.tile_state(wid(9), &test_snapshot(slot.size)), TileState::Reveal { fits: true });
    let mut plan = FlightPlan::empty();
    plan.entrances.push((wid(9), from, to));
    assert_eq!(plan.member(wid(9)), Some(Member::Entrance { from, to }));
    assert_eq!(plan.destination_of(wid(9)), Some(to));
}

#[test]
fn a_spawn_entrances_early_chase_picture_is_taken_without_a_release() {
    let slot = rect(867.0, 32.0, 859.0, 1081.0);
    let spawn = rect(300.0, 200.0, 400.0, 300.0);
    let mut running = RunningAnimation {
        tiles: vec![stacked(wid(9), spawn, slot, Some(0), false)],
        final_frames: vec![(wid(9), slot)],
        frames_applied: false,
        started: None,
        duration: ms(350),
        apply_at: 0,
        entrances: Vec::new(),
        awaiting: Vec::new(),
        hold_deadline: None,
        destination_refreshed: false,
        refresh_targets: Vec::new(),
        harvested: Vec::new(),
        focus: None,
        plan: FlightPlan::empty(),
    };
    running.tiles[0].snapshot = test_snapshot(spawn.size);
    assert_eq!(running.claim(wid(9), &test_snapshot(spawn.size)), None, "still spawn-sized");
    assert_eq!(running.claim(wid(9), &test_snapshot(slot.size)), Some(Claimed::Refreshed));
    assert!(running.tiles[0].snapshot.fits(slot.size));
    assert_eq!(running.claim(wid(77), &test_snapshot(slot.size)), None, "no such tile");
}

#[test]
fn entrance_plan_travels_exactly_when_it_can() {
    let mut rng = Gen(157);
    for run in 0..RUNS {
        let slot = rng.on_screen();
        let spawn = match rng.below(4) {
            0 => None,
            1 => Some(rect(rng.pt(0.0, 1000.0), rng.pt(0.0, 800.0), 0.0, rng.pt(0.0, 500.0))),
            _ => Some(rng.on_screen()),
        };
        let usable = rng.coin();
        let budget = rng.coin();
        let decision = entrance_plan(spawn, slot, usable, budget);
        let can = spawn.is_some_and(|f| f.size.width > 0 && f.size.height > 0) && usable && budget;
        match decision {
            EntranceDecision::Travel { from, to } => {
                assert!(can, "seed 157 run {run}");
                assert_eq!(Some(from), spawn, "seed 157 run {run}");
                assert_eq!(to, slot, "seed 157 run {run}");
                assert!(from.size.width > 0, "seed 157 run {run}");
            }
            EntranceDecision::Reserve(_) => assert!(!can, "seed 157 run {run}"),
        }
    }
}

#[test]
fn band_plan_puts_the_floating_container_behind_the_strip_unless_it_holds_focus() {
    let (left, right) = (rect(4.0, 32.0, 860.0, 1081.0), rect(868.0, 32.0, 856.0, 1081.0));
    let settings = rect(500.0, 300.0, 700.0, 500.0);
    let far = column(2.0);
    let v = point(-300.0, 0.0);
    let mut tiles = vec![
        stacked(wid(90), left, left, Some(0), false),
        stacked(wid(5830), settings, settings, Some(1), true),
        stacked(wid(89), right, right, Some(2), false),
        stacked(wid(91), far, shifted(far, v), Some(3), false),
    ];
    let mut companion = stacked(wid(900), left, left, None, false);
    companion.companion = true;
    tiles.push(companion);
    restack(&mut tiles, Some(wid(90)));
    let plan = plan_of(&tiles);
    let still = plan.groups[0].key;
    let moving = plan.groups[1].key;

    let banding = band_plan(&plan, &tiles, Some(wid(90)));
    assert!(!banding.floating_in_front);
    assert_eq!(banding.group_order, vec![still, moving], "the focused group first");
    assert_eq!(within(&banding, wid(90)), 0, "the focused window leads its container");
    let (tiled, floating) = (StackGroup::Tiled, StackGroup::Floating);
    assert_eq!(within(&banding, wid(89)), tile_depth(Some(2), false, tiled, tiled));
    assert_eq!(within(&banding, wid(5830)), tile_depth(Some(1), false, floating, floating));
    let anchor = tiles.iter().find(|t| t.window == wid(90)).unwrap().depth;
    assert_eq!(within(&banding, wid(900)), anchor % GROUP_STRIDE, "a companion takes its window's depth");

    restack(&mut tiles, Some(wid(5830)));
    let banding = band_plan(&plan, &tiles, Some(wid(5830)));
    assert!(banding.floating_in_front);
    assert_eq!(within(&banding, wid(5830)), 0);
    assert_eq!(banding.group_order, vec![still, moving], "no strip group holds focus: shallowest first");
}

#[test]
fn container_bands_plus_within_depths_reproduce_tile_depth() {
    let mut rng = Gen(163);
    for run in 0..RUNS {
        let count = 1 + rng.below(8) as usize;
        let mut tiles: Vec<OverlayTile> = (0..count)
            .map(|i| {
                let f = rng.on_screen();
                let order = if rng.below(6) == 0 { None } else { Some(rng.below(40) as usize) };
                stacked(wid(i as u32 + 1), f, f, order, rng.coin())
            })
            .collect();
        let focus = if rng.coin() { Some(wid(1 + rng.below(count as u64) as u32)) } else { None };
        restack(&mut tiles, focus);
        let plan = plan_of(&tiles);
        let banding = band_plan(&plan, &tiles, focus);
        let focused_group = focus_group(focus, &tiles);
        assert_eq!(banding.floating_in_front, focused_group == StackGroup::Floating, "seed 163 run {run}");
        let tag = format!("seed 163 run {run}");
        let mut strip_total: Vec<usize> = Vec::new();
        let mut floating_total: Vec<usize> = Vec::new();
        for tile in &tiles {
            let group = group_of(tile.floating);
            let container = if group == focused_group { 0 } else { GROUP_STRIDE };
            let total = container + within(&banding, tile.window);
            let expected = tile_depth(tile.server_order, focus == Some(tile.window), group, focused_group);
            assert_eq!(total, expected, "{tag}: {:?}", tile.window);
            assert_eq!(total, tile.depth, "{tag}: restack agrees");
            if tile.floating {
                floating_total.push(total)
            } else {
                strip_total.push(total)
            }
        }
        for f in &floating_total {
            for s in &strip_total {
                if focused_group == StackGroup::Tiled {
                    assert!(f > s, "{tag}: floating {f} in front of strip {s}");
                } else {
                    assert!(f < s, "{tag}: floating {f} behind strip {s}");
                }
            }
        }
        let mut order = banding.group_order.clone();
        order.sort_by_key(|k| format!("{k:?}"));
        order.dedup();
        assert_eq!(order.len(), banding.group_order.len(), "{tag}");
        assert!(!banding.group_order.contains(&GroupKey::Floating), "{tag}");
        for g in plan.groups.iter().filter(|g| !g.members.is_empty()) {
            assert!(banding.group_order.contains(&g.key), "{tag}: {:?} unordered", g.key);
        }
    }
}

#[test]
fn a_plan_knows_where_its_windows_end() {
    let mut plan = FlightPlan::empty();
    let (a, slot) = (column(0.0), column(1.0));
    plan.groups = vec![RigidGroup {
        key: GroupKey::Rigid(3),
        travel: point(-100.0, 0.0),
        members: vec![RigidMember { window: wid(1), rel: a }],
    }];
    plan.positions = vec![(GroupKey::Rigid(3), point(-100.0, 0.0))];
    plan.entrances = vec![(wid(2), entrance_from(slot), slot)];
    assert_eq!(plan.member(wid(1)), Some(Member::Rigid { key: GroupKey::Rigid(3), rel: a }));
    assert_eq!(plan.destination_of(wid(1)), Some(shifted(a, point(-100.0, 0.0))));
    assert_eq!(plan.destination_of(wid(2)), Some(slot));
    assert_eq!(plan.member(wid(9)), None);
    assert_eq!(plan.position_of(GroupKey::Loose), Point::new(0, 0));
}

#[test]
fn every_reason_to_reserve_is_named() {
    let slot = column(0.0);
    let reason = |spawn: Option<Rect>, usable: bool, budget: bool| {
        match entrance_plan(spawn, slot, usable, budget) {
            EntranceDecision::Reserve(reason) => reason.label(),
            EntranceDecision::Travel { .. } => "travels",
        }
    };
    assert_eq!(reason(None, true, true), "no server frame");
    assert_eq!(reason(Some(rect(0.0, 0.0, 5.0, 0.0)), true, true), "zero server frame");
    assert_eq!(reason(Some(slot), false, true), "capture unusable");
    assert_eq!(reason(Some(slot), false, false), "capture budget");
    assert_eq!(reason(Some(slot), true, true), "travels");
    assert_eq!(SwapReason::Reveal.label(), "reveal");
    assert_eq!(SwapReason::Refresh.label(), "refresh");
}

#[test]
fn what_is_left_is_the_nearest_nanosecond() {
    let third = Progress { elapsed: 1, total: 3 };
    assert_eq!(third.left_of(10), 7);
    assert_eq!(third.left_of(2), 1);
    let half = Progress { elapsed: 1, total: 2 };
    assert_eq!((half.left_of(1), half.left_of(3)), (0, 2));
    assert_eq!(Progress { elapsed: 5, total: 5 }.left_of(u64::MAX), 0);
    assert_eq!(Progress { elapsed: 0, total: 5 }.left_of(u64::MAX), u64::MAX);
}
