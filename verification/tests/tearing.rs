use takhti::tearing_control::{
    control_destroyed, control_request, manager_request, surface_prefers_tearing, ControlRequest,
    ManagerReply, ManagerRequest, PresentationHint, TearingControlData, TearingControlManagerState,
    TearingControlSurfaceData, VERSION,
};

fn get(data: &mut Option<TearingControlSurfaceData>) -> bool {
    match manager_request(data, ManagerRequest::GetTearingControl { surface: 3 }) {
        ManagerReply::Control { control, already_present } => {
            assert_eq!(control, TearingControlData { surface: 3 });
            already_present
        }
        ManagerReply::Nothing => panic!("a control is always handed out"),
    }
}

fn hint(data: &mut Option<TearingControlSurfaceData>, hint: PresentationHint) {
    control_request(data, ControlRequest::SetPresentationHint { hint });
}

#[test]
fn the_global_is_of_version_one() {
    assert_eq!(VERSION, 1);
    assert_eq!(TearingControlManagerState::new().version, 1);
}

#[test]
fn surfaces_prefer_vsync_by_default() {
    assert!(!surface_prefers_tearing(None));
    assert!(!surface_prefers_tearing(Some(TearingControlSurfaceData::default())));
}

#[test]
fn only_the_async_hint_prefers_tearing() {
    let mut data = None;
    assert!(!get(&mut data));
    assert!(!surface_prefers_tearing(data));
    hint(&mut data, PresentationHint::Async);
    assert!(surface_prefers_tearing(data));
    hint(&mut data, PresentationHint::Unknown(7));
    assert!(!surface_prefers_tearing(data));
    hint(&mut data, PresentationHint::Async);
    hint(&mut data, PresentationHint::Vsync);
    assert!(!surface_prefers_tearing(data));
}

#[test]
fn a_second_control_is_refused_until_the_first_is_gone() {
    let mut data = None;
    assert!(!get(&mut data));
    assert!(get(&mut data));
    hint(&mut data, PresentationHint::Async);
    control_request(&mut data, ControlRequest::Destroy);
    assert_eq!(data, Some(TearingControlSurfaceData::default()));
    assert!(!get(&mut data));
    hint(&mut data, PresentationHint::Async);
    control_destroyed(&mut data);
    assert!(!surface_prefers_tearing(data));
    assert!(!get(&mut data));
}

#[test]
fn other_requests_change_nothing() {
    let mut data = None;
    assert_eq!(manager_request(&mut data, ManagerRequest::Destroy), ManagerReply::Nothing);
    assert_eq!(manager_request(&mut data, ManagerRequest::Unknown), ManagerReply::Nothing);
    control_request(&mut data, ControlRequest::Unknown);
    assert_eq!(data, None);
}
