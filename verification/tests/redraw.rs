use calloop::timer::{TimeoutAction, Timer};
use calloop::{EventLoop, RegistrationToken};
use takhti::redraw::RedrawState;

fn token() -> RegistrationToken {
    let event_loop: EventLoop<'_, ()> = EventLoop::try_new().unwrap();
    event_loop
        .handle()
        .insert_source(Timer::immediate(), |_, _, _| TimeoutAction::Drop)
        .unwrap()
}

#[test]
fn outputs_start_idle() {
    assert_eq!(RedrawState::default(), RedrawState::Idle);
}

#[test]
fn a_request_schedules_once() {
    let mut state = RedrawState::Idle;
    assert!(state.request(false));
    assert_eq!(state, RedrawState::Queued);
    assert!(!state.request(false));
    assert_eq!(state, RedrawState::Queued);
}

#[test]
fn a_pending_callback_is_enough() {
    let mut state = RedrawState::Idle;
    assert!(!state.request(true));
    assert_eq!(state, RedrawState::Queued);
    let mut state = RedrawState::WaitingForVBlank { redraw_needed: true };
    assert!(!state.vblank(true));
    assert_eq!(state, RedrawState::Queued);
}

#[test]
fn requests_coalesce_while_a_frame_is_in_flight() {
    let mut state = RedrawState::WaitingForVBlank { redraw_needed: false };
    assert!(!state.request(false));
    assert!(!state.request(false));
    assert_eq!(state, RedrawState::WaitingForVBlank { redraw_needed: true });
    assert!(state.vblank(false));
    assert_eq!(state, RedrawState::Queued);
}

#[test]
fn a_presented_frame_leaves_an_idle_output() {
    let mut state = RedrawState::WaitingForVBlank { redraw_needed: false };
    assert!(!state.vblank(false));
    assert_eq!(state, RedrawState::Idle);
}

#[test]
fn stale_vblanks_disturb_nothing() {
    let token = token();
    for before in vec![
        RedrawState::Idle,
        RedrawState::Queued,
        RedrawState::WaitingForEstimatedVBlank(token),
        RedrawState::WaitingForEstimatedVBlankAndQueued(token),
    ] {
        let mut state = before;
        assert!(!state.vblank(false));
        assert_eq!(state, before);
    }
}

#[test]
fn an_estimated_vblank_idles_out_or_renders() {
    let token = token();
    let mut state = RedrawState::WaitingForEstimatedVBlank(token);
    assert!(!state.estimated_vblank());
    assert_eq!(state, RedrawState::Idle);
    let mut state = RedrawState::WaitingForEstimatedVBlank(token);
    assert!(!state.request(false));
    assert_eq!(state, RedrawState::WaitingForEstimatedVBlankAndQueued(token));
    assert!(state.estimated_vblank());
    assert_eq!(state, RedrawState::Queued);
    assert!(!state.estimated_vblank());
    assert_eq!(state, RedrawState::Queued);
}

#[test]
fn a_pending_timer_is_reused() {
    let token = token();
    let mut state = RedrawState::WaitingForEstimatedVBlankAndQueued(token);
    assert_eq!(state.pending_timer(), Some(token));
    assert!(!state.no_damage());
    assert_eq!(state, RedrawState::WaitingForEstimatedVBlank(token));
    let mut state = RedrawState::Queued;
    assert_eq!(state.pending_timer(), None);
    assert!(state.no_damage());
    assert_eq!(state, RedrawState::Idle);
}
