use takhti::input::{
    apply_device_config, AccelProfile, AccelSpeed, ClickMethod, DeviceDefaults, DragLockState,
    InputConfig, InputDevice, InputDeviceSettings, ScrollMethod, SendEventsMode,
};
use takhti::table::NamedTable;

fn speed(value: f64) -> AccelSpeed {
    AccelSpeed { bits: value.to_bits() }
}

fn defaults() -> DeviceDefaults {
    DeviceDefaults {
        tap: false,
        tap_drag: true,
        drag_lock: DragLockState::EnabledSticky,
        natural_scroll: false,
        accel_speed: speed(0.25),
        accel_profile: Some(AccelProfile::Adaptive),
        dwt: true,
        left_handed: false,
        middle_emulation: false,
        scroll_method: Some(ScrollMethod::TwoFinger),
        scroll_button: 274,
        click_method: None,
    }
}

fn device(name: &str, fingers: u32, is_pointer: bool) -> InputDevice {
    InputDevice {
        id: 1,
        name: String::from(name),
        tap_finger_count: fingers,
        is_pointer,
        defaults: defaults(),
    }
}

fn config() -> InputConfig {
    InputConfig {
        touchpad: InputDeviceSettings::default(),
        mouse: InputDeviceSettings::default(),
        devices: NamedTable::new(),
    }
}

#[test]
fn unset_fields_come_to_the_defaults() {
    let applied = apply_device_config(&config(), &device("pad", 3, true));
    assert_eq!(applied.send_events, SendEventsMode::Enabled);
    assert!(!applied.tap);
    assert!(applied.tap_drag);
    assert_eq!(applied.drag_lock, DragLockState::EnabledSticky);
    assert!(!applied.natural_scroll);
    assert_eq!(applied.accel_speed.bits, 0.25f64.to_bits());
    assert_eq!(applied.accel_profile, Some(AccelProfile::Adaptive));
    assert!(applied.dwt);
    assert!(!applied.left_handed);
    assert!(!applied.middle_emulation);
    assert_eq!(applied.scroll_method, Some(ScrollMethod::TwoFinger));
    assert_eq!(applied.scroll_button, Some(274));
    assert_eq!(applied.click_method, None);
}

#[test]
fn tapping_tells_touchpads_from_mice() {
    let mut config = config();
    config.touchpad.tap = Some(true);
    config.mouse.left_handed = Some(true);
    let pad = apply_device_config(&config, &device("pad", 1, true));
    assert!(pad.tap);
    assert!(!pad.left_handed);
    let mouse = apply_device_config(&config, &device("mouse", 0, true));
    assert!(!mouse.tap);
    assert!(mouse.left_handed);
    let keyboard = apply_device_config(&config, &device("keyboard", 0, false));
    assert!(!keyboard.tap);
    assert!(!keyboard.left_handed);
}

#[test]
fn a_devices_own_entry_goes_over_its_class() {
    let mut config = config();
    config.touchpad.tap = Some(true);
    config.touchpad.natural_scroll = Some(true);
    let mut own = InputDeviceSettings::default();
    own.tap = Some(false);
    own.accel_profile = Some(AccelProfile::Flat);
    own.accel_speed = Some(speed(-1.0));
    own.click_method = Some(ClickMethod::Clickfinger);
    own.dwt = Some(false);
    own.middle_emulation = Some(true);
    own.tap_drag = Some(false);
    config.devices.insert(String::from("pad"), own);
    let pad = apply_device_config(&config, &device("pad", 2, true));
    assert!(!pad.tap);
    assert!(pad.natural_scroll);
    assert_eq!(pad.accel_profile, Some(AccelProfile::Flat));
    assert_eq!(pad.accel_speed.bits, (-1.0f64).to_bits());
    assert_eq!(pad.click_method, Some(ClickMethod::Clickfinger));
    assert!(!pad.dwt);
    assert!(pad.middle_emulation);
    assert!(!pad.tap_drag);
    let other = apply_device_config(&config, &device("other", 2, true));
    assert!(other.tap);
}

#[test]
fn disabling_goes_before_giving_way_to_a_mouse() {
    let mut config = config();
    config.touchpad.disabled_on_external_mouse = Some(true);
    let pad = device("pad", 2, true);
    assert_eq!(
        apply_device_config(&config, &pad).send_events,
        SendEventsMode::DisabledOnExternalMouse
    );
    config.touchpad.disabled = Some(true);
    assert_eq!(apply_device_config(&config, &pad).send_events, SendEventsMode::Disabled);
    config.touchpad.disabled = Some(false);
    config.touchpad.disabled_on_external_mouse = Some(false);
    assert_eq!(apply_device_config(&config, &pad).send_events, SendEventsMode::Enabled);
}

#[test]
fn drag_lock_is_set_with_a_timeout() {
    let mut config = config();
    let pad = device("pad", 2, true);
    config.touchpad.tap_drag_lock = Some(true);
    assert_eq!(apply_device_config(&config, &pad).drag_lock, DragLockState::EnabledTimeout);
    config.touchpad.tap_drag_lock = Some(false);
    assert_eq!(apply_device_config(&config, &pad).drag_lock, DragLockState::Disabled);
}

#[test]
fn an_unset_scroll_button_reverts_whatever_the_method() {
    let mut config = config();
    let mut mouse = device("mouse", 0, true);
    mouse.defaults.scroll_button = 0;
    config.mouse.scroll_button = Some(274);
    config.mouse.scroll_method = Some(ScrollMethod::OnButtonDown);
    assert_eq!(apply_device_config(&config, &mouse).scroll_button, Some(274));
    config.mouse.scroll_button = None;
    assert_eq!(apply_device_config(&config, &mouse).scroll_button, Some(0));
    config.mouse.scroll_method = Some(ScrollMethod::Edge);
    assert_eq!(apply_device_config(&config, &mouse).scroll_button, Some(0));
}

#[test]
fn a_scroll_button_is_set_only_where_it_scrolls() {
    let mut config = config();
    let mut mouse = device("mouse", 0, true);
    mouse.defaults.scroll_button = 0;
    config.mouse.scroll_button = Some(274);
    assert_eq!(apply_device_config(&config, &mouse).scroll_button, None);
    config.mouse.scroll_method = Some(ScrollMethod::Edge);
    assert_eq!(apply_device_config(&config, &mouse).scroll_button, None);
    config.mouse.scroll_method = Some(ScrollMethod::OnButtonDown);
    assert_eq!(apply_device_config(&config, &mouse).scroll_button, Some(274));
    config.mouse.scroll_method = None;
    mouse.defaults.scroll_method = Some(ScrollMethod::OnButtonDown);
    assert_eq!(apply_device_config(&config, &mouse).scroll_button, Some(274));
    mouse.defaults.scroll_method = None;
    assert_eq!(apply_device_config(&config, &mouse).scroll_button, None);
}

#[test]
fn removing_a_line_undoes_it() {
    let pad = device("pad", 2, true);
    let mut with = config();
    with.touchpad.tap = Some(true);
    with.touchpad.scroll_method = Some(ScrollMethod::Edge);
    assert!(apply_device_config(&with, &pad).tap);
    let without = apply_device_config(&config(), &pad);
    assert_eq!(without.tap, pad.defaults.tap);
    assert_eq!(without.scroll_method, pad.defaults.scroll_method);
}

#[test]
fn configurations_compare_by_their_values() {
    let mut a = config();
    a.mouse.accel_speed = Some(speed(0.0));
    let mut b = a.duplicate();
    assert!(a.same(&b));
    b.mouse.accel_speed = Some(speed(-0.0));
    assert!(a.same(&b));
    b.mouse.accel_speed = Some(speed(0.5));
    assert!(!a.same(&b));
    b.mouse.accel_speed = Some(speed(f64::NAN));
    let c = b.duplicate();
    assert!(!b.same(&c));
    let mut d = a.duplicate();
    d.devices.insert(String::from("pad"), InputDeviceSettings::default());
    assert!(!a.same(&d));
}
