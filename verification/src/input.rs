//! Input device settings, and what they come to on a given device.

use vstd::prelude::*;

use crate::table::{Matches, NamedTable};

verus! {

/// A pointer speed: a double-precision number, by its bits.
#[derive(Clone, Copy, Debug)]
pub struct AccelSpeed {
    pub bits: u64,
}

impl AccelSpeed {
    /// Whether the bits are those of no number.
    pub open spec fn is_nan(self) -> bool {
        self.bits & 0x7fff_ffff_ffff_ffff > 0x7ff0_0000_0000_0000
    }

    /// Whether the bits are those of zero, of either sign.
    pub open spec fn is_zero(self) -> bool {
        self.bits & 0x7fff_ffff_ffff_ffff == 0
    }

    /// Whether the two are equal as numbers: no number equals nothing, and
    /// the zeros equal each other.
    pub open spec fn equals(self, other: AccelSpeed) -> bool {
        &&& !self.is_nan()
        &&& !other.is_nan()
        &&& self.bits == other.bits || (self.is_zero() && other.is_zero())
    }

    /// Compares two speeds as numbers.
    pub fn equal(&self, other: &AccelSpeed) -> (equal: bool)
        ensures
            equal == self.equals(*other),
    {
        let a: u64 = self.bits & 0x7fff_ffff_ffff_ffff;
        let b: u64 = other.bits & 0x7fff_ffff_ffff_ffff;
        if a > 0x7ff0_0000_0000_0000 || b > 0x7ff0_0000_0000_0000 {
            false
        } else {
            self.bits == other.bits || (a == 0 && b == 0)
        }
    }
}

/// How pointer motion is accelerated.
#[derive(Clone, Copy, Debug, PartialEq, Eq, Structural)]
pub enum AccelProfile {
    Flat,
    Adaptive,
}

/// What turns motion into scrolling.
#[derive(Clone, Copy, Debug, PartialEq, Eq, Structural)]
pub enum ScrollMethod {
    NoScroll,
    TwoFinger,
    Edge,
    OnButtonDown,
}

/// What decides which button a click on a clickpad is.
#[derive(Clone, Copy, Debug, PartialEq, Eq, Structural)]
pub enum ClickMethod {
    ButtonAreas,
    Clickfinger,
}

/// Whether a tap-and-drag survives lifting the finger.
#[derive(Clone, Copy, Debug, PartialEq, Eq, Structural)]
pub enum DragLockState {
    Disabled,
    EnabledTimeout,
    EnabledSticky,
}

/// When a device sends events.
#[derive(Clone, Copy, Debug, PartialEq, Eq, Structural)]
pub enum SendEventsMode {
    Enabled,
    Disabled,
    DisabledOnExternalMouse,
}

/// Settings for a class of input devices or for one device. What is unset is
/// left to the device.
#[derive(Clone, Copy, Debug)]
pub struct InputDeviceSettings {
    pub disabled: Option<bool>,
    pub disabled_on_external_mouse: Option<bool>,
    pub tap: Option<bool>,
    pub tap_drag: Option<bool>,
    pub tap_drag_lock: Option<bool>,
    pub natural_scroll: Option<bool>,
    pub accel_speed: Option<AccelSpeed>,
    pub accel_profile: Option<AccelProfile>,
    pub dwt: Option<bool>,
    pub left_handed: Option<bool>,
    pub middle_emulation: Option<bool>,
    pub scroll_method: Option<ScrollMethod>,
    pub scroll_button: Option<u32>,
    pub click_method: Option<ClickMethod>,
}

/// One setting overlaid with another: what the second one sets, it wins.
pub open spec fn overlay<T>(base: Option<T>, over: Option<T>) -> Option<T> {
    match over {
        Some(value) => Some(value),
        None => base,
    }
}

/// What a setting comes to where the device has a default for it.
pub open spec fn resolved<T>(setting: Option<T>, default: T) -> T {
    match setting {
        Some(value) => value,
        None => default,
    }
}

fn overlaid<T: Copy>(base: Option<T>, over: Option<T>) -> (result: Option<T>)
    ensures
        result == overlay(base, over),
{
    match over {
        Some(value) => Some(value),
        None => base,
    }
}

fn resolve<T: Copy>(setting: Option<T>, default: T) -> (result: T)
    ensures
        result == resolved(setting, default),
{
    match setting {
        Some(value) => value,
        None => default,
    }
}

impl InputDeviceSettings {
    /// Nothing set.
    pub open spec fn unset() -> InputDeviceSettings {
        InputDeviceSettings {
            disabled: None,
            disabled_on_external_mouse: None,
            tap: None,
            tap_drag: None,
            tap_drag_lock: None,
            natural_scroll: None,
            accel_speed: None,
            accel_profile: None,
            dwt: None,
            left_handed: None,
            middle_emulation: None,
            scroll_method: None,
            scroll_button: None,
            click_method: None,
        }
    }

    /// These settings with the other ones on top.
    pub open spec fn overlaid_with(self, over: InputDeviceSettings) -> InputDeviceSettings {
        InputDeviceSettings {
            disabled: overlay(self.disabled, over.disabled),
            disabled_on_external_mouse: overlay(
                self.disabled_on_external_mouse,
                over.disabled_on_external_mouse,
            ),
            tap: overlay(self.tap, over.tap),
            tap_drag: overlay(self.tap_drag, over.tap_drag),
            tap_drag_lock: overlay(self.tap_drag_lock, over.tap_drag_lock),
            natural_scroll: overlay(self.natural_scroll, over.natural_scroll),
            accel_speed: overlay(self.accel_speed, over.accel_speed),
            accel_profile: overlay(self.accel_profile, over.accel_profile),
            dwt: overlay(self.dwt, over.dwt),
            left_handed: overlay(self.left_handed, over.left_handed),
            middle_emulation: overlay(self.middle_emulation, over.middle_emulation),
            scroll_method: overlay(self.scroll_method, over.scroll_method),
            scroll_button: overlay(self.scroll_button, over.scroll_button),
            click_method: overlay(self.click_method, over.click_method),
        }
    }

    /// Puts other settings on top of these: what they set, they win.
    pub fn overridden_by(&self, over: &InputDeviceSettings) -> (settings: InputDeviceSettings)
        ensures
            settings == self.overlaid_with(*over),
    {
        InputDeviceSettings {
            disabled: overlaid(self.disabled, over.disabled),
            disabled_on_external_mouse: overlaid(
                self.disabled_on_external_mouse,
                over.disabled_on_external_mouse,
            ),
            tap: overlaid(self.tap, over.tap),
            tap_drag: overlaid(self.tap_drag, over.tap_drag),
            tap_drag_lock: overlaid(self.tap_drag_lock, over.tap_drag_lock),
            natural_scroll: overlaid(self.natural_scroll, over.natural_scroll),
            accel_speed: overlaid(self.accel_speed, over.accel_speed),
            accel_profile: overlaid(self.accel_profile, over.accel_profile),
            dwt: overlaid(self.dwt, over.dwt),
            left_handed: overlaid(self.left_handed, over.left_handed),
            middle_emulation: overlaid(self.middle_emulation, over.middle_emulation),
            scroll_method: overlaid(self.scroll_method, over.scroll_method),
            scroll_button: overlaid(self.scroll_button, over.scroll_button),
            click_method: overlaid(self.click_method, over.click_method),
        }
    }
}

impl Default for InputDeviceSettings {
    fn default() -> (settings: Self)
        ensures
            settings == InputDeviceSettings::unset(),
    {
        InputDeviceSettings {
            disabled: None,
            disabled_on_external_mouse: None,
            tap: None,
            tap_drag: None,
            tap_drag_lock: None,
            natural_scroll: None,
            accel_speed: None,
            accel_profile: None,
            dwt: None,
            left_handed: None,
            middle_emulation: None,
            scroll_method: None,
            scroll_button: None,
            click_method: None,
        }
    }
}

impl Matches for InputDeviceSettings {
    open spec fn matched(self, other: InputDeviceSettings) -> bool {
        &&& InputDeviceSettings { accel_speed: None, ..self } == (InputDeviceSettings {
            accel_speed: None,
            ..other
        })
        &&& match (self.accel_speed, other.accel_speed) {
            (Some(a), Some(b)) => a.equals(b),
            (None, None) => true,
            _ => false,
        }
    }

    fn matches(&self, other: &InputDeviceSettings) -> (same: bool) {
        let speed: bool = match (self.accel_speed, other.accel_speed) {
            (Some(a), Some(b)) => a.equal(&b),
            (None, None) => true,
            _ => false,
        };
        let profile: bool = match (self.accel_profile, other.accel_profile) {
            (Some(a), Some(b)) => a == b,
            (None, None) => true,
            _ => false,
        };
        let scroll: bool = match (self.scroll_method, other.scroll_method) {
            (Some(a), Some(b)) => a == b,
            (None, None) => true,
            _ => false,
        };
        let click: bool = match (self.click_method, other.click_method) {
            (Some(a), Some(b)) => a == b,
            (None, None) => true,
            _ => false,
        };
        speed && self.disabled == other.disabled && self.disabled_on_external_mouse
            == other.disabled_on_external_mouse && self.tap == other.tap && self.tap_drag
            == other.tap_drag && self.tap_drag_lock == other.tap_drag_lock && self.natural_scroll
            == other.natural_scroll && profile && self.dwt == other.dwt && self.left_handed
            == other.left_handed && self.middle_emulation == other.middle_emulation && scroll
            && self.scroll_button == other.scroll_button && click
    }
}

/// The input part of the settings: one entry for touchpads, one for mice, and
/// entries for single devices by name.
#[derive(Debug)]
pub struct InputConfig {
    pub touchpad: InputDeviceSettings,
    pub mouse: InputDeviceSettings,
    pub devices: NamedTable<InputDeviceSettings>,
}

/// The input part of the settings, as values.
#[verifier::ext_equal]
pub struct InputConfigView {
    pub touchpad: InputDeviceSettings,
    pub mouse: InputDeviceSettings,
    pub devices: Map<Seq<char>, InputDeviceSettings>,
}

impl View for InputConfig {
    type V = InputConfigView;

    open spec fn view(&self) -> InputConfigView {
        InputConfigView { touchpad: self.touchpad, mouse: self.mouse, devices: self.devices@ }
    }
}

impl InputConfigView {
    /// Whether the two hold the same settings.
    pub open spec fn same(self, other: InputConfigView) -> bool {
        &&& self.touchpad.matched(other.touchpad)
        &&& self.mouse.matched(other.mouse)
        &&& crate::table::same_table(self.devices, other.devices)
    }

    /// Whether every pointer speed that is set is a number.
    pub open spec fn speeds_are_numbers(self) -> bool {
        &&& self.touchpad.accel_speed matches Some(speed) ==> !speed.is_nan()
        &&& self.mouse.accel_speed matches Some(speed) ==> !speed.is_nan()
        &&& forall|name: Seq<char>| #[trigger]
            self.devices.contains_key(name) ==> (self.devices[name].accel_speed matches Some(speed)
                ==> !speed.is_nan())
    }

    /// The settings for the class that a device belongs to.
    pub open spec fn class_of(self, device: InputDevice) -> InputDeviceSettings {
        if device.tap_finger_count > 0 {
            self.touchpad
        } else if device.is_pointer {
            self.mouse
        } else {
            InputDeviceSettings::unset()
        }
    }

    /// The settings for a device: those of its class, overlaid with its own.
    pub open spec fn settings_of(self, device: InputDevice) -> InputDeviceSettings {
        if self.devices.contains_key(device.name@) {
            self.class_of(device).overlaid_with(self.devices[device.name@])
        } else {
            self.class_of(device)
        }
    }
}

impl InputConfig {
    /// Tells whether two configurations hold the same settings.
    pub fn same(&self, other: &InputConfig) -> (same: bool)
        ensures
            same == self@.same(other@),
    {
        self.touchpad.matches(&other.touchpad) && self.mouse.matches(&other.mouse)
            && self.devices.same(&other.devices)
    }

    /// Another configuration with the same settings.
    pub fn duplicate(&self) -> (copy: InputConfig)
        ensures
            copy@ == self@,
    {
        InputConfig {
            touchpad: self.touchpad,
            mouse: self.mouse,
            devices: self.devices.duplicate(),
        }
    }
}

/// What a device does where nothing is set.
#[derive(Clone, Copy, Debug)]
pub struct DeviceDefaults {
    pub tap: bool,
    pub tap_drag: bool,
    pub drag_lock: DragLockState,
    pub natural_scroll: bool,
    pub accel_speed: AccelSpeed,
    pub accel_profile: Option<AccelProfile>,
    pub dwt: bool,
    pub left_handed: bool,
    pub middle_emulation: bool,
    pub scroll_method: Option<ScrollMethod>,
    pub scroll_button: u32,
    pub click_method: Option<ClickMethod>,
}

/// A live input device.
#[derive(Debug)]
pub struct InputDevice {
    /// Tells devices apart.
    pub id: u64,
    /// The name that settings key single devices by.
    pub name: String,
    /// How many fingers the device can tell tapping; touchpads have some.
    pub tap_finger_count: u32,
    /// Whether the device moves a pointer.
    pub is_pointer: bool,
    pub defaults: DeviceDefaults,
}

/// Everything to be set on a device. What is absent is not set.
#[derive(Clone, Copy, Debug)]
pub struct DeviceConfig {
    pub send_events: SendEventsMode,
    pub tap: bool,
    pub tap_drag: bool,
    pub drag_lock: DragLockState,
    pub natural_scroll: bool,
    pub accel_speed: AccelSpeed,
    pub accel_profile: Option<AccelProfile>,
    pub dwt: bool,
    pub left_handed: bool,
    pub middle_emulation: bool,
    pub scroll_method: Option<ScrollMethod>,
    pub scroll_button: Option<u32>,
    pub click_method: Option<ClickMethod>,
}

/// When a device with these settings sends events: being disabled outright
/// goes before giving way to an external mouse.
pub open spec fn send_events_mode(settings: InputDeviceSettings) -> SendEventsMode {
    if settings.disabled == Some(true) {
        SendEventsMode::Disabled
    } else if settings.disabled_on_external_mouse == Some(true) {
        SendEventsMode::DisabledOnExternalMouse
    } else {
        SendEventsMode::Enabled
    }
}

/// The scroll button to set. One that is configured counts only where a button
/// turns motion into scrolling; the device's own is set back wherever none is.
pub open spec fn button_to_set(settings: InputDeviceSettings, defaults: DeviceDefaults) -> Option<
    u32,
> {
    match settings.scroll_button {
        Some(button) => if overlay(defaults.scroll_method, settings.scroll_method) == Some(
            ScrollMethod::OnButtonDown,
        ) {
            Some(button)
        } else {
            None
        },
        None => Some(defaults.scroll_button),
    }
}

/// What settings come to on a device with these defaults.
pub open spec fn configured(settings: InputDeviceSettings, defaults: DeviceDefaults) -> DeviceConfig {
    DeviceConfig {
        send_events: send_events_mode(settings),
        tap: resolved(settings.tap, defaults.tap),
        tap_drag: resolved(settings.tap_drag, defaults.tap_drag),
        drag_lock: match settings.tap_drag_lock {
            Some(true) => DragLockState::EnabledTimeout,
            Some(false) => DragLockState::Disabled,
            None => defaults.drag_lock,
        },
        natural_scroll: resolved(settings.natural_scroll, defaults.natural_scroll),
        accel_speed: resolved(settings.accel_speed, defaults.accel_speed),
        accel_profile: overlay(defaults.accel_profile, settings.accel_profile),
        dwt: resolved(settings.dwt, defaults.dwt),
        left_handed: resolved(settings.left_handed, defaults.left_handed),
        middle_emulation: resolved(settings.middle_emulation, defaults.middle_emulation),
        scroll_method: overlay(defaults.scroll_method, settings.scroll_method),
        scroll_button: button_to_set(settings, defaults),
        click_method: overlay(defaults.click_method, settings.click_method),
    }
}

/// What a configuration comes to on a device.
pub open spec fn device_config(config: InputConfigView, device: InputDevice) -> DeviceConfig {
    configured(config.settings_of(device), device.defaults)
}

/// Works out what to set on a device: the settings of its class, overlaid with
/// those under its own name. Unset fields come to the device's defaults, so
/// that removing a setting undoes it.
pub fn apply_device_config(config: &InputConfig, device: &InputDevice) -> (result: DeviceConfig)
    ensures
        result == device_config(config@, *device),
{
    // Tap support is what distinguishes touchpads.
    let class: InputDeviceSettings = if device.tap_finger_count > 0 {
        config.touchpad
    } else if device.is_pointer {
        config.mouse
    } else {
        InputDeviceSettings::default()
    };
    let s: InputDeviceSettings = match config.devices.get(&device.name) {
        Some(per_device) => class.overridden_by(&per_device),
        None => class,
    };
    let defaults: DeviceDefaults = device.defaults;

    let send_events: SendEventsMode = match (s.disabled, s.disabled_on_external_mouse) {
        (Some(true), _) => SendEventsMode::Disabled,
        (_, Some(true)) => SendEventsMode::DisabledOnExternalMouse,
        _ => SendEventsMode::Enabled,
    };
    let drag_lock: DragLockState = match s.tap_drag_lock {
        Some(true) => DragLockState::EnabledTimeout,
        Some(false) => DragLockState::Disabled,
        None => defaults.drag_lock,
    };
    let scroll_method: Option<ScrollMethod> = overlaid(defaults.scroll_method, s.scroll_method);
    let scroll_button: Option<u32> = match (s.scroll_button, scroll_method) {
        (Some(button), Some(ScrollMethod::OnButtonDown)) => Some(button),
        (Some(_), _) => None,
        (None, _) => Some(defaults.scroll_button),
    };
    DeviceConfig {
        send_events,
        tap: resolve(s.tap, defaults.tap),
        tap_drag: resolve(s.tap_drag, defaults.tap_drag),
        drag_lock,
        natural_scroll: resolve(s.natural_scroll, defaults.natural_scroll),
        accel_speed: resolve(s.accel_speed, defaults.accel_speed),
        accel_profile: overlaid(defaults.accel_profile, s.accel_profile),
        dwt: resolve(s.dwt, defaults.dwt),
        left_handed: resolve(s.left_handed, defaults.left_handed),
        middle_emulation: resolve(s.middle_emulation, defaults.middle_emulation),
        scroll_method,
        scroll_button,
        click_method: overlaid(defaults.click_method, s.click_method),
    }
}

/// What is in force on a device: every setting has some value.
pub struct DeviceState {
    pub send_events: SendEventsMode,
    pub tap: bool,
    pub tap_drag: bool,
    pub drag_lock: DragLockState,
    pub natural_scroll: bool,
    pub accel_speed: AccelSpeed,
    pub accel_profile: Option<AccelProfile>,
    pub dwt: bool,
    pub left_handed: bool,
    pub middle_emulation: bool,
    pub scroll_method: Option<ScrollMethod>,
    pub scroll_button: u32,
    pub click_method: Option<ClickMethod>,
}

impl DeviceState {
    /// What is in force once a configuration has been set on the device.
    pub open spec fn after(self, config: DeviceConfig) -> DeviceState {
        DeviceState {
            send_events: config.send_events,
            tap: config.tap,
            tap_drag: config.tap_drag,
            drag_lock: config.drag_lock,
            natural_scroll: config.natural_scroll,
            accel_speed: config.accel_speed,
            accel_profile: overlay(self.accel_profile, config.accel_profile),
            dwt: config.dwt,
            left_handed: config.left_handed,
            middle_emulation: config.middle_emulation,
            scroll_method: overlay(self.scroll_method, config.scroll_method),
            scroll_button: resolved(config.scroll_button, self.scroll_button),
            click_method: overlay(self.click_method, config.click_method),
        }
    }
}

/// A device for which nothing is set keeps to its defaults and sends events.
pub proof fn unset_fields_mean_defaults(config: InputConfigView, device: InputDevice)
    requires
        config.settings_of(device) == InputDeviceSettings::unset(),
    ensures
        device_config(config, device) == (DeviceConfig {
            send_events: SendEventsMode::Enabled,
            tap: device.defaults.tap,
            tap_drag: device.defaults.tap_drag,
            drag_lock: device.defaults.drag_lock,
            natural_scroll: device.defaults.natural_scroll,
            accel_speed: device.defaults.accel_speed,
            accel_profile: device.defaults.accel_profile,
            dwt: device.defaults.dwt,
            left_handed: device.defaults.left_handed,
            middle_emulation: device.defaults.middle_emulation,
            scroll_method: device.defaults.scroll_method,
            scroll_button: Some(device.defaults.scroll_button),
            click_method: device.defaults.click_method,
        }),
{
}

/// A reload undoes removed lines: whatever configuration was in force before,
/// a device ends up as if only the new one had ever been set. This is so of a
/// profile, scroll method or click method only where the new configuration or
/// the device has one to set, and of a scroll button only where the new
/// configuration does not name one that its scroll method has no use for.
pub proof fn reload_undoes_removed_lines(
    state: DeviceState,
    before: InputConfigView,
    config: InputConfigView,
    device: InputDevice,
)
    ensures
        ({
            let now = device_config(config, device);
            let reloaded = state.after(device_config(before, device)).after(now);
            let fresh = state.after(now);
            &&& reloaded.send_events == fresh.send_events
            &&& reloaded.tap == fresh.tap
            &&& reloaded.tap_drag == fresh.tap_drag
            &&& reloaded.drag_lock == fresh.drag_lock
            &&& reloaded.natural_scroll == fresh.natural_scroll
            &&& reloaded.accel_speed == fresh.accel_speed
            &&& reloaded.dwt == fresh.dwt
            &&& reloaded.left_handed == fresh.left_handed
            &&& reloaded.middle_emulation == fresh.middle_emulation
            &&& now.accel_profile is Some ==> reloaded.accel_profile == fresh.accel_profile
            &&& now.scroll_method is Some ==> reloaded.scroll_method == fresh.scroll_method
            &&& now.click_method is Some ==> reloaded.click_method == fresh.click_method
            &&& now.scroll_button is Some ==> reloaded.scroll_button == fresh.scroll_button
            &&& config.settings_of(device).scroll_button is None ==> reloaded.scroll_button
                == device.defaults.scroll_button
        }),
{
}

/// A configuration is the same as itself where every pointer speed that it
/// sets is a number.
pub proof fn configuration_matches_itself(config: InputConfigView)
    requires
        config.speeds_are_numbers(),
    ensures
        config.same(config),
{
}

/// What the settings of a device set is what the device gets, whatever its
/// defaults are.
pub proof fn what_is_set_wins(config: InputConfig, device: InputDevice, result: DeviceConfig)
    requires
        call_ensures(apply_device_config, (&config, &device), result),
    ensures
        ({
            let s = config@.settings_of(device);
            &&& s.tap matches Some(v) ==> result.tap == v
            &&& s.tap_drag matches Some(v) ==> result.tap_drag == v
            &&& s.tap_drag_lock == Some(true) ==> result.drag_lock is EnabledTimeout
            &&& s.tap_drag_lock == Some(false) ==> result.drag_lock is Disabled
            &&& s.natural_scroll matches Some(v) ==> result.natural_scroll == v
            &&& s.accel_speed matches Some(v) ==> result.accel_speed == v
            &&& s.accel_profile matches Some(v) ==> result.accel_profile == Some(v)
            &&& s.dwt matches Some(v) ==> result.dwt == v
            &&& s.left_handed matches Some(v) ==> result.left_handed == v
            &&& s.middle_emulation matches Some(v) ==> result.middle_emulation == v
            &&& s.scroll_method matches Some(v) ==> result.scroll_method == Some(v)
            &&& s.click_method matches Some(v) ==> result.click_method == Some(v)
        }),
{
}

/// What the settings of a device leave unset is what the device does by
/// default, field by field.
pub proof fn what_is_unset_is_the_default(config: InputConfig, device: InputDevice, result: DeviceConfig)
    requires
        call_ensures(apply_device_config, (&config, &device), result),
    ensures
        ({
            let s = config@.settings_of(device);
            let d = device.defaults;
            &&& s.tap is None ==> result.tap == d.tap
            &&& s.tap_drag is None ==> result.tap_drag == d.tap_drag
            &&& s.tap_drag_lock is None ==> result.drag_lock == d.drag_lock
            &&& s.natural_scroll is None ==> result.natural_scroll == d.natural_scroll
            &&& s.accel_speed is None ==> result.accel_speed == d.accel_speed
            &&& s.accel_profile is None ==> result.accel_profile == d.accel_profile
            &&& s.dwt is None ==> result.dwt == d.dwt
            &&& s.left_handed is None ==> result.left_handed == d.left_handed
            &&& s.middle_emulation is None ==> result.middle_emulation == d.middle_emulation
            &&& s.scroll_method is None ==> result.scroll_method == d.scroll_method
            &&& s.scroll_button is None ==> result.scroll_button == Some(d.scroll_button)
            &&& s.click_method is None ==> result.click_method == d.click_method
        }),
{
}

/// A scroll button that is set reaches the device exactly where a button turns
/// motion into scrolling there.
pub proof fn a_scroll_button_needs_its_method(
    config: InputConfig,
    device: InputDevice,
    result: DeviceConfig,
    button: u32,
)
    requires
        call_ensures(apply_device_config, (&config, &device), result),
        config@.settings_of(device).scroll_button == Some(button),
    ensures
        result.scroll_method == Some(ScrollMethod::OnButtonDown) ==> result.scroll_button == Some(
            button,
        ),
        result.scroll_method != Some(ScrollMethod::OnButtonDown) ==> result.scroll_button is None,
{
}

/// A device sends events unless it is disabled, outright or while there is an
/// external mouse. Disabled outright goes first.
pub proof fn devices_send_events_unless_disabled(
    config: InputConfig,
    device: InputDevice,
    result: DeviceConfig,
)
    requires
        call_ensures(apply_device_config, (&config, &device), result),
    ensures
        ({
            let s = config@.settings_of(device);
            &&& result.send_events is Disabled <==> s.disabled == Some(true)
            &&& result.send_events is DisabledOnExternalMouse <==> s.disabled != Some(true)
                && s.disabled_on_external_mouse == Some(true)
        }),
{
}

/// Whether one group of settings has the fields of another wherever those are
/// set.
pub open spec fn has_all_of(settings: InputDeviceSettings, over: InputDeviceSettings) -> bool {
    &&& over.disabled is Some ==> settings.disabled == over.disabled
    &&& over.disabled_on_external_mouse is Some ==> settings.disabled_on_external_mouse
        == over.disabled_on_external_mouse
    &&& over.tap is Some ==> settings.tap == over.tap
    &&& over.tap_drag is Some ==> settings.tap_drag == over.tap_drag
    &&& over.tap_drag_lock is Some ==> settings.tap_drag_lock == over.tap_drag_lock
    &&& over.natural_scroll is Some ==> settings.natural_scroll == over.natural_scroll
    &&& over.accel_speed is Some ==> settings.accel_speed == over.accel_speed
    &&& over.accel_profile is Some ==> settings.accel_profile == over.accel_profile
    &&& over.dwt is Some ==> settings.dwt == over.dwt
    &&& over.left_handed is Some ==> settings.left_handed == over.left_handed
    &&& over.middle_emulation is Some ==> settings.middle_emulation == over.middle_emulation
    &&& over.scroll_method is Some ==> settings.scroll_method == over.scroll_method
    &&& over.scroll_button is Some ==> settings.scroll_button == over.scroll_button
    &&& over.click_method is Some ==> settings.click_method == over.click_method
}

/// Whether one group of settings has the fields of another wherever those of a
/// third are not set.
pub open spec fn keeps_the_rest_of(
    settings: InputDeviceSettings,
    base: InputDeviceSettings,
    over: InputDeviceSettings,
) -> bool {
    &&& over.disabled is None ==> settings.disabled == base.disabled
    &&& over.disabled_on_external_mouse is None ==> settings.disabled_on_external_mouse
        == base.disabled_on_external_mouse
    &&& over.tap is None ==> settings.tap == base.tap
    &&& over.tap_drag is None ==> settings.tap_drag == base.tap_drag
    &&& over.tap_drag_lock is None ==> settings.tap_drag_lock == base.tap_drag_lock
    &&& over.natural_scroll is None ==> settings.natural_scroll == base.natural_scroll
    &&& over.accel_speed is None ==> settings.accel_speed == base.accel_speed
    &&& over.accel_profile is None ==> settings.accel_profile == base.accel_profile
    &&& over.dwt is None ==> settings.dwt == base.dwt
    &&& over.left_handed is None ==> settings.left_handed == base.left_handed
    &&& over.middle_emulation is None ==> settings.middle_emulation == base.middle_emulation
    &&& over.scroll_method is None ==> settings.scroll_method == base.scroll_method
    &&& over.scroll_button is None ==> settings.scroll_button == base.scroll_button
    &&& over.click_method is None ==> settings.click_method == base.click_method
}

/// What goes on top wins, and lets through what it leaves open.
pub proof fn the_upper_settings_win(
    base: InputDeviceSettings,
    over: InputDeviceSettings,
    settings: InputDeviceSettings,
)
    requires
        call_ensures(InputDeviceSettings::overridden_by, (&base, &over), settings),
    ensures
        has_all_of(settings, over),
        keeps_the_rest_of(settings, base, over),
{
}

/// A device that can tell fingers tapping goes by the touchpad settings, any
/// other that moves a pointer by the mouse settings, and the rest by none. An
/// entry under the device's own name goes over that, and an entry under another
/// name counts for nothing.
pub proof fn devices_go_by_their_class_and_name(config: InputConfigView, device: InputDevice)
    ensures
        ({
            let s = config.settings_of(device);
            let class = if device.tap_finger_count > 0 {
                config.touchpad
            } else if device.is_pointer {
                config.mouse
            } else {
                InputDeviceSettings::unset()
            };
            &&& config.devices.contains_key(device.name@) ==> has_all_of(
                s,
                config.devices[device.name@],
            ) && keeps_the_rest_of(s, class, config.devices[device.name@])
            &&& !config.devices.contains_key(device.name@) ==> s == class
        }),
{
}

/// Where nothing is set, no field is.
pub proof fn unset_settings_set_nothing(over: InputDeviceSettings, settings: InputDeviceSettings)
    requires
        call_ensures(
            InputDeviceSettings::overridden_by,
            (&InputDeviceSettings::unset(), &over),
            settings,
        ),
    ensures
        settings == over,
{
}

/// Two speeds are equal as numbers: a number equals itself and nothing else but
/// the two zeros each other, and what is no number equals nothing.
pub proof fn speeds_are_equal_as_numbers(a: AccelSpeed, b: AccelSpeed, equal: bool)
    requires
        call_ensures(AccelSpeed::equal, (&a, &b), equal),
    ensures
        equal <==> a.bits & 0x7fff_ffff_ffff_ffff <= 0x7ff0_0000_0000_0000 && b.bits
            & 0x7fff_ffff_ffff_ffff <= 0x7ff0_0000_0000_0000 && (a.bits == b.bits || (a.bits
            & 0x7fff_ffff_ffff_ffff == 0 && b.bits & 0x7fff_ffff_ffff_ffff == 0)),
{
}

/// Settings that count as the same come to the same on every device, but for
/// speeds that are equal as numbers. Any other difference in a field makes them
/// differ.
pub proof fn the_same_settings_agree(a: InputDeviceSettings, b: InputDeviceSettings)
    ensures
        a.matched(b) ==> {
            &&& a.disabled == b.disabled
            &&& a.disabled_on_external_mouse == b.disabled_on_external_mouse
            &&& a.tap == b.tap
            &&& a.tap_drag == b.tap_drag
            &&& a.tap_drag_lock == b.tap_drag_lock
            &&& a.natural_scroll == b.natural_scroll
            &&& a.accel_profile == b.accel_profile
            &&& a.dwt == b.dwt
            &&& a.left_handed == b.left_handed
            &&& a.middle_emulation == b.middle_emulation
            &&& a.scroll_method == b.scroll_method
            &&& a.scroll_button == b.scroll_button
            &&& a.click_method == b.click_method
            &&& a.accel_speed is Some <==> b.accel_speed is Some
            &&& a.accel_speed is Some ==> a.accel_speed->0.equals(b.accel_speed->0)
        },
        a == b && (a.accel_speed matches Some(speed) ==> speed.bits & 0x7fff_ffff_ffff_ffff
            <= 0x7ff0_0000_0000_0000) ==> a.matched(b),
{
}

/// Configurations count as the same exactly if every part does: the touchpads,
/// the mice, and the same devices by name.
pub proof fn the_same_configurations_agree(a: InputConfig, b: InputConfig, same: bool)
    requires
        call_ensures(InputConfig::same, (&a, &b), same),
    ensures
        same <==> a@.touchpad.matched(b@.touchpad) && a@.mouse.matched(b@.mouse)
            && a@.devices.dom() == b@.devices.dom() && forall|name: Seq<char>|
            a@.devices.contains_key(name) ==> (#[trigger] a@.devices[name]).matched(
                b@.devices[name],
            ),
{
}

} // verus!
