use std::collections::HashMap;

use calloop::timer::{TimeoutAction, Timer};
use calloop::{EventLoop, RegistrationToken};

use takhti::bring_up::{bring_up, Progress, Stage, Step};
use takhti::connectors::{
    connector_connected, connector_connected_checked, connector_disconnected, device_changed,
    output_ready, scan_action, scannable, ConnectError, ScanAction, ScanOutcome, ScanReport,
};
use takhti::devices::{
    allocator_for, device_added, device_ready, device_removed, import_dmabuf, init,
    primary_came_up, primary_comes_up, removal_in_range, render_candidate, waits_for_hotplug,
    DeviceError, ImportOutcome, RendererProbe,
};
use takhti::geometry::{Point, Rectangle, Size};
use takhti::input::{
    AccelSpeed, DeviceDefaults, DragLockState, InputConfig, InputDevice, InputDeviceSettings,
};
use takhti::mode::{
    ConnectorInfo, DisplayMode, ModeName, RefreshSetting, Resolution, SizeSetting,
};
use takhti::node::{DrmNode, PrimaryProbe};
use takhti::redraw::{RedrawState, RenderOutcome};
use takhti::reload::{
    apply_display_settings, apply_libinput_settings, are_comparable, displays_changed,
    fallback_outputs,
    modes_in_range, modes_set,
    on_device_added, on_device_removed, ModeChange,
};
use takhti::session::{SessionAction, SessionEvent};
use takhti::space::PhysicalSpace;
use takhti::state::{Backend, Settings, SurfaceKey, Takhti, TtyData};
use takhti::table::NamedTable;
use takhti::tty::{
    estimated_vblank_registered, frame_queued, frame_rendered, on_callback, on_estimated_vblank,
    on_vblank,
    presentation, queue_estimated_vblank, queue_redraw, queue_redraw_all, render_surface,
    CursorSource, CursorStatus, FrameAction, Presentation, Timestamp, VBlank,
    VBlankMetadata, VBlankTime,
};

fn tokens(n: usize) -> Vec<RegistrationToken> {
    let event_loop: EventLoop<'_, ()> = EventLoop::try_new().unwrap();
    (0..n)
        .map(|_| {
            event_loop
                .handle()
                .insert_source(Timer::immediate(), |_, _, _| TimeoutAction::Drop)
                .unwrap()
        })
        .collect()
}

fn node(minor: u64) -> DrmNode {
    DrmNode { dev: (226 << 8) | minor }
}

fn card() -> DrmNode {
    node(0)
}

fn renderer() -> DrmNode {
    node(128)
}

fn key(crtc: u32) -> SurfaceKey {
    SurfaceKey { node: card(), crtc }
}

fn mode(w: u16, h: u16) -> DisplayMode {
    DisplayMode {
        clock: 60,
        hdisplay: w,
        hsync_start: 0,
        hsync_end: 0,
        htotal: 1000,
        hskew: 0,
        vdisplay: h,
        vsync_start: 0,
        vsync_end: 0,
        vtotal: 1,
        vscan: 0,
        vrefresh: 60,
        flags: 0,
        mode_type: 0,
        name: ModeName { first: 0, second: 0, third: 0, fourth: 0 },
    }
}

fn connector(id: u32, modes: Vec<DisplayMode>) -> ConnectorInfo {
    ConnectorInfo { interface: 10, interface_id: id, size: Some((600, 340)), modes }
}

fn settings() -> Settings {
    Settings {
        displays: NamedTable::new(),
        input: InputConfig {
            touchpad: InputDeviceSettings::default(),
            mouse: InputDeviceSettings::default(),
            devices: NamedTable::new(),
        },
    }
}

fn other_backend() -> Takhti {
    Takhti {
        backend: Backend::Other,
        settings: settings(),
        space: PhysicalSpace::new(),
        explicit_sync: false,
    }
}

fn started() -> Takhti {
    let mut takhti = other_backend();
    init(
        &mut takhti,
        PrimaryProbe {
            node: card(),
            requested: false,
            primary: Some(card()),
            render: Some(renderer()),
        },
    );
    takhti
}

fn with_card() -> Takhti {
    let mut takhti = started();
    device_ready(&mut takhti, card(), Some(renderer()), tokens(1)[0]);
    takhti
}

fn plug(takhti: &mut Takhti, node: DrmNode, crtc: u32, connector: ConnectorInfo, output: u64) {
    let plan = connector_connected_checked(takhti, node, &connector).unwrap().unwrap();
    assert!(output_ready(takhti, SurfaceKey { node, crtc }, connector, plan, output, output + 100));
}

fn with_outputs() -> Takhti {
    let mut takhti = with_card();
    plug(&mut takhti, card(), 1, connector(1, vec![mode(1920, 1080), mode(1280, 720)]), 11);
    plug(&mut takhti, card(), 2, connector(2, vec![mode(800, 600)]), 12);
    takhti
}

fn data(takhti: &Takhti) -> &TtyData {
    match &takhti.backend {
        Backend::Tty(data) => data,
        Backend::Other => panic!("the TTY backend drives the outputs"),
    }
}

fn state(takhti: &Takhti, crtc: u32) -> RedrawState {
    data(takhti).get_surface(key(crtc)).unwrap().redraw_state
}

fn positions(takhti: &Takhti) -> Vec<(u64, i32)> {
    takhti.space.outputs.iter().map(|mapped| (mapped.output.id, mapped.loc.x)).collect()
}

fn sorted(mut keys: Vec<SurfaceKey>) -> Vec<u32> {
    keys.sort_by_key(|key| key.crtc);
    keys.iter().map(|key| key.crtc).collect()
}

fn in_flight(takhti: &mut Takhti, crtc: u32) {
    assert!(queue_redraw(takhti, card(), crtc));
    assert!(on_callback(takhti, card(), crtc));
    let rendered = RenderOutcome::Rendered { empty: false, needs_sync: false, swapchain: true };
    assert_eq!(
        frame_rendered(takhti, card(), crtc, rendered),
        FrameAction::QueueFrame { wait: false }
    );
    frame_queued(takhti, card(), crtc, true);
    assert_eq!(state(takhti, crtc), RedrawState::WaitingForVBlank { redraw_needed: false });
}

#[test]
fn the_backend_starts_without_devices() {
    let takhti = started();
    let data = data(&takhti);
    assert_eq!(data.primary_node, card());
    assert_eq!(data.primary_render_node, renderer());
    assert!(data.devices.is_empty());
    assert!(!data.dmabuf_global_created);
    assert!(waits_for_hotplug(&takhti));
    assert!(!waits_for_hotplug(&other_backend()));
    assert!(waits_for_hotplug(&with_card()));
    assert!(!waits_for_hotplug(&with_outputs()));
}

#[test]
fn devices_are_opened_once_and_by_their_primary_node() {
    let takhti = with_card();
    assert!(!device_added(&takhti, card()));
    assert!(device_added(&takhti, node(1)));
    assert!(!device_added(&takhti, node(129)));
    assert!(!device_added(&other_backend(), node(1)));
}

#[test]
fn software_renderers_are_skipped() {
    assert_eq!(render_candidate(card(), RendererProbe::Unavailable), None);
    assert_eq!(render_candidate(card(), RendererProbe::Software), None);
    let own = RendererProbe::Hardware { render_node: Some(renderer()) };
    assert_eq!(render_candidate(card(), own), Some(renderer()));
    let shared = RendererProbe::Hardware { render_node: None };
    assert_eq!(render_candidate(card(), shared), Some(card()));
}

#[test]
fn the_dmabuf_global_comes_with_the_primary_gpu() {
    let mut takhti = started();
    assert!(!primary_comes_up(&takhti, None));
    assert!(!primary_comes_up(&takhti, Some(node(129))));
    assert!(primary_comes_up(&takhti, Some(renderer())));
    primary_came_up(&mut takhti, Some(renderer()), false, true);
    assert!(takhti.explicit_sync);
    assert!(primary_comes_up(&takhti, Some(renderer())));
    primary_came_up(&mut takhti, Some(renderer()), true, false);
    assert!(takhti.explicit_sync);
    assert!(data(&takhti).dmabuf_global_created);
    assert!(!primary_comes_up(&takhti, Some(renderer())));
}

#[test]
fn display_only_devices_allocate_from_the_primary() {
    let takhti = started();
    assert_eq!(allocator_for(&takhti, node(1), None), Err(DeviceError::NoAllocator));
    assert_eq!(allocator_for(&takhti, node(1), Some(node(129))), Ok(node(1)));
    let takhti = with_card();
    assert_eq!(allocator_for(&takhti, node(1), None), Ok(card()));
    assert_eq!(allocator_for(&other_backend(), node(1), None), Err(DeviceError::NotActive));
}

#[test]
fn buffers_are_tagged_with_the_gpu_that_took_them() {
    let takhti = started();
    let data = data(&takhti);
    assert_eq!(import_dmabuf(data, ImportOutcome::Imported), Some(renderer()));
    assert_eq!(import_dmabuf(data, ImportOutcome::Refused), None);
    assert_eq!(import_dmabuf(data, ImportOutcome::NoRenderer), None);
}

#[test]
fn an_output_is_planned_by_its_name() {
    let mut takhti = with_card();
    takhti.settings.displays.insert(
        String::from("DP-1"),
        Resolution { size: SizeSetting::Exact(1280, 720), refresh: RefreshSetting::Auto },
    );
    let info = connector(1, vec![mode(1920, 1080), mode(1280, 720)]);
    let plan = connector_connected(&takhti, card(), &info).unwrap();
    assert_eq!(plan.name, "DP-1");
    assert_eq!(plan.mode, mode(1280, 720));
    assert!(!plan.fallback);
    assert_eq!(plan.physical_size, Size { w: 600, h: 340 });
    assert_eq!(plan.client_mode.size, Size { w: 1280, h: 720 });
    assert_eq!(plan.client_mode.refresh, 60_000);
    assert_eq!(plan.x, 0);
    assert_eq!(plan.render_node, renderer());
    assert!(plan.can_render);
    let other = connector(2, vec![mode(1920, 1080), mode(1280, 720)]);
    assert_eq!(connector_connected(&takhti, card(), &other).unwrap().mode, mode(1920, 1080));
}

#[test]
fn a_setting_for_another_monitor_falls_back() {
    let mut takhti = with_card();
    takhti.settings.displays.insert(
        String::from("DP-1"),
        Resolution { size: SizeSetting::Exact(640, 480), refresh: RefreshSetting::Auto },
    );
    let mut info = connector(1, vec![mode(1920, 1080)]);
    info.size = None;
    let plan = connector_connected(&takhti, card(), &info).unwrap();
    assert_eq!(plan.mode, mode(1920, 1080));
    assert!(plan.fallback);
    assert_eq!(plan.physical_size, Size { w: 0, h: 0 });
}

#[test]
fn outputs_that_cannot_be_set_up_say_why() {
    let info = connector(1, vec![]);
    assert_eq!(
        connector_connected(&other_backend(), card(), &info).unwrap_err(),
        ConnectError::NotActive
    );
    assert_eq!(
        connector_connected(&started(), card(), &info).unwrap_err(),
        ConnectError::UnknownDevice
    );
    assert_eq!(
        connector_connected(&with_card(), card(), &info).unwrap_err(),
        ConnectError::NoModes
    );
    let mut untimed = mode(1920, 1080);
    untimed.htotal = 0;
    let info = connector(1, vec![untimed]);
    assert!(connector_connected_checked(&with_card(), card(), &info).is_none());
    assert_eq!(
        connector_connected_checked(&started(), card(), &info).unwrap().unwrap_err(),
        ConnectError::UnknownDevice
    );
}

#[test]
fn display_only_outputs_render_on_the_primary() {
    let mut takhti = with_card();
    device_ready(&mut takhti, node(1), None, tokens(1)[0]);
    let plan = connector_connected(&takhti, node(1), &connector(1, vec![mode(800, 600)])).unwrap();
    assert_eq!(plan.render_node, renderer());
    assert!(!plan.can_render);
    plug(&mut takhti, node(1), 5, connector(1, vec![mode(800, 600)]), 11);
    let plan = render_surface(&takhti, node(1), 5, true, CursorStatus::Hidden).unwrap();
    assert_eq!(plan.render_node, renderer());
    assert_eq!(plan.target_node, renderer());
}

#[test]
fn new_outputs_line_up() {
    let takhti = with_outputs();
    assert_eq!(positions(&takhti), vec![(11, 0), (12, 1920)]);
    let surface = data(&takhti).get_surface(key(1)).unwrap();
    assert_eq!(surface.output, 11);
    assert_eq!(surface.global, 111);
    assert_eq!(surface.name, "DP-1");
    assert_eq!(surface.pending_mode, mode(1920, 1080));
    assert_eq!(surface.redraw_state, RedrawState::Idle);
}

#[test]
fn unplugging_takes_the_output_and_its_timer() {
    let mut takhti = with_outputs();
    let token = tokens(1)[0];
    assert!(queue_redraw(&mut takhti, card(), 1));
    estimated_vblank_registered(&mut takhti, card(), 1, Some(token));
    let gone = connector_disconnected(&mut takhti, card(), 1).unwrap();
    assert_eq!(gone.output, 11);
    assert_eq!(gone.global, 111);
    assert_eq!(gone.name, "DP-1");
    assert_eq!(gone.timer, Some(token));
    assert_eq!(positions(&takhti), vec![(12, 1920)]);
    assert!(connector_disconnected(&mut takhti, card(), 1).is_none());
    assert!(connector_disconnected(&mut takhti, node(1), 1).is_none());
    assert!(connector_disconnected(&mut other_backend(), card(), 1).is_none());
    assert!(device_changed(&mut takhti, &vec![ScanOutcome::Disconnected]));
    assert_eq!(positions(&takhti), vec![(12, 0)]);
}

#[test]
fn plugging_and_unplugging_is_no_change() {
    let mut takhti = with_outputs();
    let before = positions(&takhti);
    plug(&mut takhti, card(), 3, connector(3, vec![mode(640, 480)]), 13);
    assert_eq!(positions(&takhti).len(), 3);
    let gone = connector_disconnected(&mut takhti, card(), 3).unwrap();
    assert_eq!(gone.timer, None);
    assert_eq!(positions(&takhti), before);
    assert!(data(&takhti).get_surface(key(3)).is_none());
}

#[test]
fn unplugging_keeps_the_pending_callbacks() {
    let mut takhti = with_outputs();
    let before = positions(&takhti);
    plug(&mut takhti, card(), 3, connector(3, vec![mode(640, 480)]), 13);
    assert!(queue_redraw(&mut takhti, card(), 1));
    assert!(queue_redraw(&mut takhti, card(), 3));
    let gone = connector_disconnected(&mut takhti, card(), 3).unwrap();
    assert_eq!((gone.output, gone.global, gone.timer), (13, 113, None));
    assert_eq!(positions(&takhti), before);
    assert_eq!(sorted(data(&takhti).callbacks.clone()), vec![1, 3]);
}

#[test]
fn a_vanished_device_gets_no_output() {
    let mut takhti = with_card();
    let info = connector(1, vec![mode(800, 600)]);
    let plan = connector_connected(&takhti, card(), &info).unwrap();
    assert!(device_removed(&mut takhti, card()).is_some());
    assert!(!output_ready(&mut takhti, key(1), info, plan, 11, 111));
    assert_eq!(positions(&takhti), vec![]);
}

#[test]
fn scans_skip_connectors_without_an_engine() {
    let connected = ScanReport::Connected { crtc: Some(4) };
    assert_eq!(scan_action(card(), connected), ScanAction::Connect { key: key(4) });
    let disconnected = ScanReport::Disconnected { crtc: Some(4) };
    assert_eq!(scan_action(card(), disconnected), ScanAction::Disconnect { key: key(4) });
    assert_eq!(scan_action(card(), ScanReport::Connected { crtc: None }), ScanAction::Skip);
    assert_eq!(scan_action(card(), ScanReport::Disconnected { crtc: None }), ScanAction::Skip);
    assert!(scannable(&with_card(), card()));
    assert!(!scannable(&with_card(), node(1)));
    assert!(!scannable(&other_backend(), card()));
}

#[test]
fn a_scan_without_change_moves_nothing() {
    let mut takhti = with_outputs();
    assert!(connector_disconnected(&mut takhti, card(), 1).is_some());
    assert!(!device_changed(&mut takhti, &vec![]));
    assert!(!device_changed(&mut takhti, &vec![ScanOutcome::Skipped, ScanOutcome::Failed]));
    assert_eq!(positions(&takhti), vec![(12, 1920)]);
    assert!(device_changed(&mut takhti, &vec![ScanOutcome::Failed, ScanOutcome::Connected]));
    assert_eq!(positions(&takhti), vec![(12, 0)]);
}

#[test]
fn a_removed_device_takes_its_outputs() {
    let mut takhti = with_card();
    device_ready(&mut takhti, node(1), None, tokens(1)[0]);
    plug(&mut takhti, card(), 1, connector(1, vec![mode(1920, 1080)]), 11);
    plug(&mut takhti, node(1), 1, connector(2, vec![mode(800, 600)]), 12);
    plug(&mut takhti, card(), 2, connector(3, vec![mode(640, 480)]), 13);
    assert!(removal_in_range(&takhti, card()));
    let removed = device_removed(&mut takhti, card()).unwrap();
    assert!(removed.changed);
    assert_eq!(removed.render_node, Some(renderer()));
    let mut gone: Vec<u64> = removed.outputs.iter().map(|output| output.output).collect();
    gone.sort();
    assert_eq!(gone, vec![11, 13]);
    assert_eq!(positions(&takhti), vec![(12, 0)]);
    assert!(device_removed(&mut takhti, card()).is_none());
    assert!(device_added(&takhti, card()));
    assert!(device_removed(&mut other_backend(), card()).is_none());
}

#[test]
fn a_device_without_outputs_goes_quietly() {
    let mut takhti = with_card();
    let token = data(&takhti).devices[&card().dev].token;
    let removed = device_removed(&mut takhti, card()).unwrap();
    assert!(!removed.changed);
    assert!(removed.outputs.is_empty());
    assert_eq!(removed.token, token);
}

#[test]
fn only_idle_outputs_are_scheduled() {
    let mut takhti = with_outputs();
    in_flight(&mut takhti, 1);
    assert_eq!(sorted(queue_redraw_all(&mut takhti)), vec![2]);
    assert_eq!(state(&takhti, 1), RedrawState::WaitingForVBlank { redraw_needed: true });
    assert_eq!(state(&takhti, 2), RedrawState::Queued);
    assert_eq!(queue_redraw_all(&mut takhti), vec![]);
    assert_eq!(queue_redraw_all(&mut other_backend()), vec![]);
    assert!(!queue_redraw(&mut takhti, card(), 9));
    assert!(!queue_redraw(&mut other_backend(), card(), 1));
}

#[test]
fn a_vblank_presents_and_repaints() {
    let mut takhti = with_outputs();
    let now = Timestamp { secs: 5, nanos: 6 };
    let hardware = Timestamp { secs: 1, nanos: 2 };
    in_flight(&mut takhti, 1);
    let meta = VBlankMetadata { time: VBlankTime::Monotonic(hardware), sequence: 77 };
    assert_eq!(
        on_vblank(&mut takhti, card(), 1, Some(meta), now),
        Some(VBlank {
            presentation: Presentation {
                time: hardware,
                refresh: Some(60_000),
                sequence: 77,
                vsync: true,
                hw_clock: true,
                hw_completion: true,
            },
            schedule: false,
        })
    );
    assert_eq!(state(&takhti, 1), RedrawState::Idle);
    in_flight(&mut takhti, 1);
    assert!(!queue_redraw(&mut takhti, card(), 1));
    assert!(on_vblank(&mut takhti, card(), 1, None, now).unwrap().schedule);
    assert_eq!(state(&takhti, 1), RedrawState::Queued);
    assert!(on_vblank(&mut takhti, card(), 9, None, now).is_none());
    assert!(on_vblank(&mut other_backend(), card(), 1, None, now).is_none());
}

#[test]
fn a_settable_clock_is_no_presentation_time() {
    let now = Timestamp { secs: 5, nanos: 6 };
    let meta = VBlankMetadata { time: VBlankTime::Realtime, sequence: 3 };
    let told = presentation(Some(meta), now, None);
    assert_eq!(told.time, now);
    assert!(!told.hw_clock);
    assert_eq!(told.sequence, 3);
    assert_eq!(told.refresh, None);
    let told = presentation(None, now, None);
    assert_eq!(told.time, now);
    assert_eq!(told.sequence, 0);
}

#[test]
fn an_undamaged_render_waits_for_an_estimate() {
    let mut takhti = with_outputs();
    let token = tokens(1)[0];
    assert!(queue_redraw(&mut takhti, card(), 1));
    let rendered = RenderOutcome::Rendered { empty: true, needs_sync: true, swapchain: true };
    assert_eq!(
        frame_rendered(&mut takhti, card(), 1, rendered),
        FrameAction::Estimate { wait: true, register: Some(60_000) }
    );
    estimated_vblank_registered(&mut takhti, card(), 1, Some(token));
    assert_eq!(state(&takhti, 1), RedrawState::WaitingForEstimatedVBlank(token));
    assert_eq!(queue_estimated_vblank(&mut takhti, card(), 1), None);
    assert!(!queue_redraw(&mut takhti, card(), 1));
    assert!(on_estimated_vblank(&mut takhti, card(), 1));
    assert_eq!(state(&takhti, 1), RedrawState::Queued);
    assert!(!on_estimated_vblank(&mut takhti, card(), 9));
    assert!(!on_estimated_vblank(&mut other_backend(), card(), 1));
    estimated_vblank_registered(&mut takhti, card(), 1, None);
    assert_eq!(state(&takhti, 1), RedrawState::Idle);
}

#[test]
fn estimates_without_a_rate_are_at_sixty_hertz() {
    let mut takhti = with_card();
    let mut still = mode(800, 600);
    still.clock = 0;
    plug(&mut takhti, card(), 1, connector(1, vec![still]), 11);
    assert_eq!(queue_estimated_vblank(&mut takhti, card(), 1), Some(60_000));
    assert_eq!(queue_estimated_vblank(&mut takhti, card(), 9), None);
    assert_eq!(queue_estimated_vblank(&mut other_backend(), card(), 1), None);
    let mut fast = mode(800, 600);
    fast.clock = 144;
    plug(&mut takhti, card(), 2, connector(2, vec![fast]), 12);
    assert_eq!(queue_estimated_vblank(&mut takhti, card(), 2), Some(144_000));
}

#[test]
fn failed_frames_leave_an_idle_output() {
    let mut takhti = with_outputs();
    for outcome in vec![RenderOutcome::NoRenderer, RenderOutcome::Failed] {
        assert!(queue_redraw(&mut takhti, card(), 1));
        assert!(on_callback(&mut takhti, card(), 1));
        assert_eq!(frame_rendered(&mut takhti, card(), 1, outcome), FrameAction::Nothing);
        assert_eq!(state(&takhti, 1), RedrawState::Idle);
    }
    assert!(queue_redraw(&mut takhti, card(), 1));
    let rendered = RenderOutcome::Rendered { empty: false, needs_sync: true, swapchain: false };
    assert_eq!(
        frame_rendered(&mut takhti, card(), 1, rendered),
        FrameAction::QueueFrame { wait: false }
    );
    assert_eq!(state(&takhti, 1), RedrawState::Queued);
    frame_queued(&mut takhti, card(), 1, false);
    assert_eq!(state(&takhti, 1), RedrawState::Idle);
    assert_eq!(frame_rendered(&mut takhti, card(), 9, rendered), FrameAction::Nothing);
}

#[test]
fn paused_devices_do_not_render() {
    let takhti = with_outputs();
    assert!(render_surface(&takhti, card(), 1, false, CursorStatus::Named).is_none());
    assert!(render_surface(&takhti, card(), 9, true, CursorStatus::Named).is_none());
    assert!(render_surface(&other_backend(), card(), 1, true, CursorStatus::Named).is_none());
    let plan = render_surface(&takhti, card(), 2, true, CursorStatus::Named).unwrap();
    assert_eq!(plan.output, 12);
    assert_eq!(
        plan.area,
        Rectangle { loc: Point { x: 1920, y: 0 }, size: Size { w: 800, h: 600 } }
    );
    assert_eq!(plan.render_node, renderer());
    assert_eq!(plan.target_node, renderer());
    assert_eq!(plan.cursor, CursorSource::Theme);
}

#[test]
fn a_dead_cursor_surface_gives_way_to_the_theme() {
    let takhti = with_outputs();
    let cursor = |status| render_surface(&takhti, card(), 1, true, status).unwrap().cursor;
    assert_eq!(cursor(CursorStatus::Hidden), CursorSource::Nothing);
    assert_eq!(cursor(CursorStatus::Surface { alive: true }), CursorSource::Surface);
    assert_eq!(cursor(CursorStatus::Surface { alive: false }), CursorSource::Theme);
}

#[test]
fn the_session_starts_every_output_afresh() {
    let mut takhti = with_outputs();
    let token = tokens(1)[0];
    in_flight(&mut takhti, 1);
    estimated_vblank_registered(&mut takhti, card(), 2, Some(token));
    match takhti.on_session_event(SessionEvent::PauseSession) {
        SessionAction::Pause { devices } => assert_eq!(devices, vec![card().dev]),
        _ => panic!("the devices are paused"),
    }
    assert_eq!(state(&takhti, 1), RedrawState::WaitingForVBlank { redraw_needed: false });
    match takhti.on_session_event(SessionEvent::ActivateSession) {
        SessionAction::Activate { devices, outputs } => {
            assert_eq!(devices, vec![card().dev]);
            let mut fresh: Vec<(u32, Option<RegistrationToken>, bool)> = outputs
                .iter()
                .map(|output| (output.key.crtc, output.timer, output.schedule))
                .collect();
            fresh.sort_by_key(|(crtc, _, _)| *crtc);
            assert_eq!(fresh, vec![(1, None, true), (2, Some(token), true)]);
        }
        _ => panic!("the devices are activated"),
    }
    assert_eq!(state(&takhti, 1), RedrawState::Queued);
    assert_eq!(state(&takhti, 2), RedrawState::Queued);
    assert!(matches!(
        other_backend().on_session_event(SessionEvent::ActivateSession),
        SessionAction::Nothing
    ));
}

#[test]
fn only_a_session_switches_terminals() {
    assert_eq!(started().change_vt(3), Some(3));
    assert_eq!(other_backend().change_vt(3), None);
}

fn touchpad(id: u64) -> InputDevice {
    InputDevice {
        id,
        name: format!("pad {id}"),
        tap_finger_count: 3,
        is_pointer: true,
        defaults: DeviceDefaults {
            tap: false,
            tap_drag: false,
            drag_lock: DragLockState::Disabled,
            natural_scroll: false,
            accel_speed: AccelSpeed { bits: 0 },
            accel_profile: None,
            dwt: false,
            left_handed: false,
            middle_emulation: false,
            scroll_method: None,
            scroll_button: 0,
            click_method: None,
        },
    }
}

#[test]
fn input_settings_reach_live_devices_once() {
    let mut takhti = started();
    assert!(!on_device_added(&mut takhti, touchpad(1)).tap);
    assert!(!on_device_added(&mut takhti, touchpad(2)).tap);
    assert!(apply_libinput_settings(&mut takhti).is_empty());
    takhti.settings.input.touchpad.tap = Some(true);
    let applied = apply_libinput_settings(&mut takhti);
    assert_eq!(applied.len(), 2);
    assert!(applied[0].tap && applied[1].tap);
    assert!(apply_libinput_settings(&mut takhti).is_empty());
    on_device_removed(&mut takhti, 1);
    assert_eq!(data(&takhti).input_devices.len(), 1);
    assert_eq!(data(&takhti).input_devices[0].id, 2);
    takhti.settings.input.touchpad.tap = None;
    let applied = apply_libinput_settings(&mut takhti);
    assert_eq!(applied.len(), 1);
    assert!(!applied[0].tap);
    let mut other = other_backend();
    other.settings.input.touchpad.tap = Some(true);
    assert!(on_device_added(&mut other, touchpad(1)).tap);
    assert!(apply_libinput_settings(&mut other).is_empty());
}

#[test]
fn display_settings_change_modes_once() {
    let mut takhti = with_outputs();
    assert!(!displays_changed(&takhti));
    assert_eq!(apply_display_settings(&mut takhti), vec![]);
    takhti.settings.displays.insert(
        String::from("DP-1"),
        Resolution { size: SizeSetting::Exact(1280, 720), refresh: RefreshSetting::Auto },
    );
    assert!(are_comparable(&takhti));
    assert!(displays_changed(&takhti));
    let changes = apply_display_settings(&mut takhti);
    assert!(!displays_changed(&takhti));
    assert_eq!(changes, vec![ModeChange { key: key(1), mode: mode(1280, 720) }]);
    assert_eq!(apply_display_settings(&mut takhti), vec![]);
    assert!(modes_in_range(&takhti, &changes));
    let schedule = modes_set(&mut takhti, &changes).unwrap();
    assert_eq!(sorted(schedule), vec![1, 2]);
    assert_eq!(positions(&takhti), vec![(11, 0), (12, 1280)]);
    assert_eq!(takhti.space.output_mode(11).unwrap().size, Size { w: 1280, h: 720 });
    assert_eq!(data(&takhti).get_surface(key(1)).unwrap().pending_mode, mode(1280, 720));
    assert_eq!(state(&takhti, 1), RedrawState::Queued);
    takhti.settings.displays = NamedTable::new();
    let back = apply_display_settings(&mut takhti);
    assert_eq!(back, vec![ModeChange { key: key(1), mode: mode(1920, 1080) }]);
    assert!(modes_set(&mut takhti, &vec![]).is_none());
}

#[test]
fn displays_of_another_backend_are_left_alone() {
    let mut other = other_backend();
    other.settings.displays.insert(
        String::from("DP-1"),
        Resolution { size: SizeSetting::Max, refresh: RefreshSetting::Max },
    );
    assert_eq!(apply_display_settings(&mut other), vec![]);
    assert!(are_comparable(&other));
}

#[test]
fn a_device_starts_with_an_empty_map_of_outputs() {
    let takhti = with_card();
    let device = &data(&takhti).devices[&card().dev];
    assert_eq!(device.render_node, Some(renderer()));
    let outputs: &HashMap<u32, takhti::state::TtySurface> = &device.surfaces;
    assert!(outputs.is_empty());
}

#[test]
fn a_primary_gpu_comes_up_step_by_step() {
    let mut takhti = started();
    let mut stage = Stage::Found;
    let token = tokens(1)[0];
    assert_eq!(bring_up(&mut takhti, card(), &mut stage, Progress::Discovered), Step::Open);
    let probe = RendererProbe::Hardware { render_node: Some(renderer()) };
    assert_eq!(
        bring_up(&mut takhti, card(), &mut stage, Progress::Probed(probe)),
        Step::AddRenderer { candidate: renderer() }
    );
    assert_eq!(
        bring_up(&mut takhti, card(), &mut stage, Progress::RendererAdded(true)),
        Step::SetUpPrimary
    );
    let set_up = Progress::PrimarySetUp { global_created: true, explicit_sync: true };
    assert_eq!(
        bring_up(&mut takhti, card(), &mut stage, set_up),
        Step::Register { allocator: card() }
    );
    assert!(takhti.explicit_sync);
    assert!(data(&takhti).dmabuf_global_created);
    assert!(data(&takhti).devices.is_empty());
    assert_eq!(
        bring_up(&mut takhti, card(), &mut stage, Progress::Registered(token)),
        Step::Scan
    );
    assert_eq!(stage, Stage::Over);
    let device = &data(&takhti).devices[&card().dev];
    assert_eq!(device.render_node, Some(renderer()));
    assert_eq!(device.token, token);
    assert_eq!(
        bring_up(&mut takhti, card(), &mut stage, Progress::Discovered),
        Step::Nothing
    );
    let mut again = Stage::Found;
    assert_eq!(
        bring_up(&mut takhti, card(), &mut again, Progress::Discovered),
        Step::Nothing
    );
    assert_eq!(again, Stage::Over);
}

#[test]
fn the_dmabuf_global_outlives_the_primary_gpu() {
    let mut takhti = started();
    let mut stage = Stage::SettingUpPrimary { render_node: Some(renderer()) };
    let set_up = Progress::PrimarySetUp { global_created: true, explicit_sync: false };
    bring_up(&mut takhti, card(), &mut stage, set_up);
    bring_up(&mut takhti, card(), &mut stage, Progress::Registered(tokens(1)[0]));
    let mut half_way = Stage::Found;
    bring_up(&mut takhti, node(1), &mut half_way, Progress::Discovered);
    assert!(device_removed(&mut takhti, card()).is_some());
    assert!(data(&takhti).dmabuf_global_created);
    let mut stage = Stage::AddingRenderer { candidate: renderer() };
    assert_eq!(
        bring_up(&mut takhti, card(), &mut stage, Progress::RendererAdded(true)),
        Step::Register { allocator: card() }
    );
    let late = Progress::PrimarySetUp { global_created: false, explicit_sync: true };
    let mut stage = Stage::SettingUpPrimary { render_node: Some(renderer()) };
    bring_up(&mut takhti, card(), &mut stage, late);
    assert!(data(&takhti).dmabuf_global_created);
    assert!(!takhti.explicit_sync);
}

#[test]
fn a_display_only_device_waits_for_the_primary() {
    let mut takhti = started();
    let mut stage = Stage::Opening;
    assert_eq!(
        bring_up(&mut takhti, node(1), &mut stage, Progress::Probed(RendererProbe::Software)),
        Step::Fail(DeviceError::NoAllocator)
    );
    assert_eq!(stage, Stage::Over);
    let mut takhti = with_card();
    let mut stage = Stage::AddingRenderer { candidate: node(129) };
    assert_eq!(
        bring_up(&mut takhti, node(1), &mut stage, Progress::RendererAdded(false)),
        Step::Register { allocator: card() }
    );
    assert_eq!(stage, Stage::Registering { render_node: None });
    assert_eq!(
        bring_up(&mut other_backend(), node(1), &mut stage, Progress::Registered(tokens(1)[0])),
        Step::Fail(DeviceError::NotActive)
    );
}

fn scheduled_on_activation(takhti: &mut Takhti) -> Vec<u32> {
    match takhti.on_session_event(SessionEvent::ActivateSession) {
        SessionAction::Activate { outputs, .. } => sorted(
            outputs.iter().filter(|output| output.schedule).map(|output| output.key).collect(),
        ),
        _ => panic!("the devices are activated"),
    }
}

#[test]
fn the_session_leaves_a_pending_callback_alone() {
    let mut takhti = with_outputs();
    assert!(queue_redraw(&mut takhti, card(), 1));
    assert_eq!(scheduled_on_activation(&mut takhti), vec![2]);
    assert_eq!(state(&takhti, 1), RedrawState::Queued);
    assert_eq!(state(&takhti, 2), RedrawState::Queued);
    assert_eq!(scheduled_on_activation(&mut takhti), vec![]);
    assert!(on_callback(&mut takhti, card(), 1));
    assert!(render_surface(&takhti, card(), 1, false, CursorStatus::Named).is_none());
    assert_eq!(state(&takhti, 1), RedrawState::Queued);
    assert!(!queue_redraw(&mut takhti, card(), 1));
    assert_eq!(scheduled_on_activation(&mut takhti), vec![1]);
}

#[test]
fn a_callback_from_before_is_not_doubled() {
    let mut takhti = with_outputs();
    assert!(queue_redraw(&mut takhti, card(), 2));
    assert!(connector_disconnected(&mut takhti, card(), 2).is_some());
    plug(&mut takhti, card(), 2, connector(2, vec![mode(800, 600)]), 13);
    assert_eq!(state(&takhti, 2), RedrawState::Idle);
    assert!(!queue_redraw(&mut takhti, card(), 2));
    assert_eq!(state(&takhti, 2), RedrawState::Queued);
    assert!(on_callback(&mut takhti, card(), 2));
    frame_queued(&mut takhti, card(), 2, false);
    assert!(queue_redraw(&mut takhti, card(), 2));
}

#[test]
fn a_callback_from_before_renders_nothing_unasked() {
    let mut takhti = with_outputs();
    assert!(queue_redraw(&mut takhti, card(), 2));
    assert!(connector_disconnected(&mut takhti, card(), 2).is_some());
    plug(&mut takhti, card(), 2, connector(2, vec![mode(800, 600)]), 13);
    assert!(!on_callback(&mut takhti, card(), 2));
    assert_eq!(state(&takhti, 2), RedrawState::Idle);
    assert!(queue_redraw(&mut takhti, card(), 2));
    assert!(!on_callback(&mut takhti, card(), 9));
    assert!(!on_callback(&mut other_backend(), card(), 2));
}

#[test]
fn a_connector_without_modes_says_so_wherever_the_others_end() {
    let mut takhti = with_card();
    plug(&mut takhti, card(), 1, connector(1, vec![mode(800, 600)]), 11);
    takhti.space.outputs[0].loc.x = i32::MAX;
    let info = connector(2, vec![]);
    assert_eq!(
        connector_connected_checked(&takhti, card(), &info).unwrap().unwrap_err(),
        ConnectError::NoModes
    );
    let info = connector(2, vec![mode(800, 600)]);
    assert!(connector_connected_checked(&takhti, card(), &info).is_none());
}

#[test]
fn outputs_whose_setting_matches_nothing_are_named() {
    let mut takhti = with_outputs();
    assert_eq!(fallback_outputs(&takhti), vec![]);
    takhti.settings.displays.insert(
        String::from("DP-2"),
        Resolution { size: SizeSetting::Exact(640, 480), refresh: RefreshSetting::Auto },
    );
    assert_eq!(fallback_outputs(&takhti), vec![key(2)]);
    assert_eq!(apply_display_settings(&mut takhti), vec![]);
    assert_eq!(fallback_outputs(&other_backend()), vec![]);
}
