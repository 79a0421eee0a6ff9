//! Applying settings: to input devices as they appear, and to everything that
//! is there when the settings change.

use vstd::prelude::*;

use crate::input::{DeviceConfig, InputDevice};
use crate::mode::{DisplayMode, Mode, Resolution};
use crate::node::DrmNode;
use crate::state::{Backend, SurfaceKey, Takhti, TakhtiView, TtyData, TtySurface, TtyView};
use crate::table::Matches;

verus! {

/// Takes in an input device that appeared. The result is what to set on it.
pub fn on_device_added(takhti: &mut Takhti, device: InputDevice) -> (config: DeviceConfig)
    ensures
        config == crate::input::device_config(old(takhti)@.input, device),
        final(takhti)@ == match old(takhti)@.tty {
            Some(tty) => TakhtiView {
                tty: Some(TtyView { input_devices: tty.input_devices.push(device), ..tty }),
                ..old(takhti)@
            },
            None => old(takhti)@,
        },
{
    let config: DeviceConfig = crate::input::apply_device_config(&takhti.settings.input, &device);
    match &mut takhti.backend {
        Backend::Tty(data) => {
            data.input_devices.push(device);
        },
        Backend::Other => {},
    }
    config
}

/// Which devices are others than this one.
pub open spec fn other_devices(id: u64) -> spec_fn(InputDevice) -> bool {
    |device: InputDevice| device.id != id
}

/// Takes in that an input device is gone.
pub fn on_device_removed(takhti: &mut Takhti, id: u64)
    ensures
        final(takhti)@ == match old(takhti)@.tty {
            Some(tty) => TakhtiView {
                tty: Some(
                    TtyView { input_devices: tty.input_devices.filter(other_devices(id)), ..tty },
                ),
                ..old(takhti)@
            },
            None => old(takhti)@,
        },
{
    match &mut takhti.backend {
        Backend::Tty(data) => {
            let ghost all = data.input_devices@;
            let mut devices: Vec<InputDevice> = Vec::new();
            std::mem::swap(&mut data.input_devices, &mut devices);
            let mut kept: Vec<InputDevice> = Vec::new();
            let ghost mut seen: int = 0;
            proof {
                reveal(Seq::filter);
                assert(all.take(0).filter(other_devices(id)) =~= Seq::empty());
                assert(all.skip(0) =~= all);
            }
            while devices.len() > 0
                invariant
                    0 <= seen <= all.len(),
                    devices@ == all.skip(seen),
                    kept@ == all.take(seen).filter(other_devices(id)),
                decreases devices@.len(),
            {
                let device = devices.remove(0);
                proof {
                    reveal(Seq::filter);
                    assert(device == all[seen]);
                    assert(all.take(seen + 1).drop_last() =~= all.take(seen));
                    assert(devices@ =~= all.skip(seen + 1));
                    seen = seen + 1;
                }
                if device.id != id {
                    kept.push(device);
                }
            }
            assert(all.take(seen) =~= all);
            data.input_devices = kept;
        },
        Backend::Other => {},
    }
}

/// The compositor with the input settings in force taken down as applied.
pub open spec fn input_applied(takhti: TakhtiView) -> TakhtiView {
    TakhtiView {
        tty: Some(TtyView { last_input: takhti.input, ..takhti.tty->0 }),
        ..takhti
    }
}

/// Whether the input settings in force have yet to be applied.
pub open spec fn input_due(takhti: TakhtiView) -> bool {
    takhti.tty matches Some(tty) && !takhti.input.same(tty.last_input)
}

/// Applies the input settings to every live device, unless they are as they
/// were when they were last applied. The result is what to set on each
/// device, in order; it is empty where nothing is to be set.
pub fn apply_libinput_settings(takhti: &mut Takhti) -> (configs: Vec<DeviceConfig>)
    ensures
        if input_due(old(takhti)@) {
            let devices = old(takhti)@.tty->0.input_devices;
            &&& final(takhti)@ == input_applied(old(takhti)@)
            &&& configs@ == Seq::new(
                devices.len(),
                |i: int| crate::input::device_config(old(takhti)@.input, devices[i]),
            )
        } else {
            &&& final(takhti)@ == old(takhti)@
            &&& configs@ == Seq::<DeviceConfig>::empty()
        },
{
    let mut configs: Vec<DeviceConfig> = Vec::new();
    match &mut takhti.backend {
        Backend::Tty(data) => {
            if takhti.settings.input.same(&data.last_input) {
                return configs;
            }
            data.last_input = takhti.settings.input.duplicate();
            let mut i: usize = 0;
            while i < data.input_devices.len()
                invariant
                    i <= data.input_devices@.len(),
                    configs@ == Seq::new(
                        i as nat,
                        |j: int|
                            crate::input::device_config(
                                takhti.settings.input@,
                                data.input_devices@[j],
                            ),
                    ),
                decreases data.input_devices@.len() - i,
            {
                configs.push(
                    crate::input::apply_device_config(
                        &takhti.settings.input,
                        &data.input_devices[i],
                    ),
                );
                i += 1;
            }
        },
        Backend::Other => {},
    }
    configs
}

/// Applying the input settings a second time does nothing, as long as the
/// pointer speeds are numbers: what is not a number never equals itself.
pub proof fn input_settings_apply_once(takhti: TakhtiView)
    requires
        input_due(takhti),
        takhti.input.speeds_are_numbers(),
    ensures
        !input_due(input_applied(takhti)),
{
    crate::input::configuration_matches_itself(takhti.input);
}

/// An output that is to have another mode.
#[derive(Clone, Copy, Debug, PartialEq, Eq, Structural)]
pub struct ModeChange {
    pub key: SurfaceKey,
    pub mode: DisplayMode,
}

/// Whether the displays settings in force have yet to be applied.
pub open spec fn displays_due(takhti: TakhtiView) -> bool {
    takhti.tty matches Some(tty) && !crate::table::same_table(takhti.displays, tty.last_displays)
}

/// The compositor with the displays settings in force taken down as applied.
pub open spec fn displays_applied(takhti: TakhtiView) -> TakhtiView {
    TakhtiView {
        tty: Some(TtyView { last_displays: takhti.displays, ..takhti.tty->0 }),
        ..takhti
    }
}

/// The resolution that is configured for an output.
pub open spec fn target_of(displays: Map<Seq<char>, Resolution>, surface: TtySurface) -> Resolution {
    crate::state::resolution_of(displays, surface.name@)
}

/// The mode that an output is to be given; none where it has the right one
/// already, or no modes at all.
pub open spec fn mode_due(displays: Map<Seq<char>, Resolution>, surface: TtySurface) -> Option<
    DisplayMode,
> {
    match crate::mode::picked(surface.connector.modes@, target_of(displays, surface)) {
        Some((mode, _)) => if mode == surface.pending_mode {
            None
        } else {
            Some(mode)
        },
        None => None,
    }
}

/// Whether these are the outputs that are to be given another mode, each one
/// once.
pub open spec fn lists_changes(takhti: TakhtiView, changes: Seq<ModeChange>) -> bool {
    &&& changes.no_duplicates()
    &&& forall|change: ModeChange| #[trigger]
        changes.contains(change) <==> takhti.has(change.key) && mode_due(
            takhti.displays,
            takhti.surface(change.key),
        ) == Some(change.mode)
}

/// Whether the refresh rates of every output's modes can be computed and
/// compared.
pub open spec fn all_comparable(takhti: TakhtiView) -> bool {
    forall|key: SurfaceKey| #[trigger]
        takhti.has(key) ==> crate::mode::comparable(
            takhti.surface(key).connector.modes@,
            target_of(takhti.displays, takhti.surface(key)),
        )
}

/// Tests whether the displays settings in force have yet to be applied.
pub fn displays_changed(takhti: &Takhti) -> (changed: bool)
    ensures
        changed == displays_due(takhti@),
{
    match &takhti.backend {
        Backend::Tty(data) => !takhti.settings.displays.same(&data.last_displays),
        Backend::Other => false,
    }
}

/// Picks every output's mode anew, unless the displays settings are as they
/// were when they were last applied. The result lists the outputs that are to
/// be given another mode.
pub fn apply_display_settings(takhti: &mut Takhti) -> (changes: Vec<ModeChange>)
    requires
        displays_due(old(takhti)@) ==> all_comparable(old(takhti)@),
    ensures
        if displays_due(old(takhti)@) {
            &&& final(takhti)@ == displays_applied(old(takhti)@)
            &&& lists_changes(old(takhti)@, changes@)
        } else {
            &&& final(takhti)@ == old(takhti)@
            &&& changes@ == Seq::<ModeChange>::empty()
        },
{
    let mut changes: Vec<ModeChange> = Vec::new();
    let ghost before = takhti@;
    match &mut takhti.backend {
        Backend::Tty(data) => {
            if takhti.settings.displays.same(&data.last_displays) {
                return changes;
            }
            data.last_displays = takhti.settings.displays.duplicate();
            let ghost tty = data@;
            let targets = data.targets();
            let mut i: usize = 0;
            while i < targets.len()
                invariant
                    i <= targets@.len(),
                    targets@.no_duplicates(),
                    targets@.to_set() == tty.keys(),
                    data@ == tty,
                    before.tty is Some,
                    before.displays == takhti.settings.displays@,
                    tty == (TtyView { last_displays: before.displays, ..before.tty->0 }),
                    all_comparable(before),
                    changes@.no_duplicates(),
                    forall|change: ModeChange| #[trigger]
                        changes@.contains(change) <==> targets@.take(i as int).contains(change.key)
                            && mode_due(before.displays, tty.surface(change.key)) == Some(
                            change.mode,
                        ),
                decreases targets@.len() - i,
            {
                let key: SurfaceKey = targets[i];
                let ghost done = targets@.take(i as int);
                proof {
                    assert(targets@.to_set().contains(key));
                    assert(before.has(key));
                    assert(targets@.take(i + 1) =~= done.push(key));
                    crate::state::lemma_push(done, key);
                    assert(!done.contains(key));
                }
                match data.get_surface(key) {
                    Some(surface) => {
                        let target: Resolution = takhti.settings.resolution_for(&surface.name);
                        match crate::mode::pick_mode(&surface.connector, target) {
                            Some((mode, _)) => {
                                if mode != surface.pending_mode {
                                    let change = ModeChange { key, mode };
                                    assert(!changes@.contains(change));
                                    proof {
                                        crate::state::lemma_push(changes@, change);
                                    }
                                    changes.push(change);
                                }
                            },
                            None => {},
                        }
                    },
                    None => {},
                }
                i += 1;
            }
            proof {
                assert(targets@.take(i as int) =~= targets@);
                assert forall|key: SurfaceKey| targets@.contains(key) <==> #[trigger] before.has(
                    key,
                ) by {
                    assert(targets@.to_set().contains(key) <==> targets@.contains(key));
                    assert(tty.keys().contains(key) <==> tty.has(key));
                }
            }
        },
        Backend::Other => {},
    }
    changes
}

/// Whether nothing that an output offers matches its configured resolution, so
/// that its preferred mode stands in.
pub open spec fn falls_back(displays: Map<Seq<char>, Resolution>, surface: TtySurface) -> bool {
    crate::mode::picked(surface.connector.modes@, target_of(displays, surface)) matches Some(
        (_, fallback),
    ) && fallback
}

/// Names the outputs for which no mode matches the configured resolution, so
/// that users can be warned of it.
pub fn fallback_outputs(takhti: &Takhti) -> (outputs: Vec<SurfaceKey>)
    requires
        all_comparable(takhti@),
    ensures
        outputs@.no_duplicates(),
        forall|key: SurfaceKey| #[trigger]
            outputs@.contains(key) <==> takhti@.has(key) && falls_back(
                takhti@.displays,
                takhti@.surface(key),
            ),
{
    let mut outputs: Vec<SurfaceKey> = Vec::new();
    match &takhti.backend {
        Backend::Tty(data) => {
            let targets = data.targets();
            let mut i: usize = 0;
            while i < targets.len()
                invariant
                    i <= targets@.len(),
                    targets@.no_duplicates(),
                    targets@.to_set() == data@.keys(),
                    takhti@.tty == Some(data@),
                    takhti@.displays == takhti.settings.displays@,
                    all_comparable(takhti@),
                    outputs@.no_duplicates(),
                    forall|key: SurfaceKey| #[trigger]
                        outputs@.contains(key) <==> targets@.take(i as int).contains(key)
                            && falls_back(takhti@.displays, takhti@.surface(key)),
                decreases targets@.len() - i,
            {
                let key: SurfaceKey = targets[i];
                let ghost done = targets@.take(i as int);
                proof {
                    assert(targets@.to_set().contains(key));
                    assert(takhti@.has(key));
                    assert(targets@.take(i + 1) =~= done.push(key));
                    crate::state::lemma_push(done, key);
                    assert(!done.contains(key));
                    crate::state::lemma_push(outputs@, key);
                }
                match data.get_surface(key) {
                    Some(surface) => {
                        let target: Resolution = takhti.settings.resolution_for(&surface.name);
                        if let Some((_, fallback)) = crate::mode::pick_mode(
                            &surface.connector,
                            target,
                        ) {
                            if fallback {
                                outputs.push(key);
                            }
                        }
                    },
                    None => {},
                }
                i += 1;
            }
            proof {
                assert(targets@.take(i as int) =~= targets@);
                assert forall|key: SurfaceKey| targets@.contains(key) <==> #[trigger] takhti@.has(
                    key,
                ) by {
                    assert(targets@.to_set().contains(key) <==> targets@.contains(key));
                    assert(data@.keys().contains(key) <==> data@.has(key));
                }
            }
        },
        Backend::Other => {},
    }
    outputs
}

/// Tests whether the refresh rates of every output's modes can be computed and
/// compared.
pub fn are_comparable(takhti: &Takhti) -> (fine: bool)
    ensures
        fine == all_comparable(takhti@),
{
    match &takhti.backend {
        Backend::Tty(data) => {
            let targets = data.targets();
            let mut i: usize = 0;
            proof {
                assert forall|key: SurfaceKey| targets@.contains(key) <==> #[trigger] takhti@.has(
                    key,
                ) by {
                    assert(targets@.to_set().contains(key) <==> targets@.contains(key));
                    assert(data@.keys().contains(key) <==> data@.has(key));
                }
            }
            while i < targets.len()
                invariant
                    i <= targets@.len(),
                    takhti@.tty == Some(data@),
                    takhti@.displays == takhti.settings.displays@,
                    forall|key: SurfaceKey|
                        targets@.contains(key) <==> #[trigger] takhti@.has(key),
                    forall|j: int|
                        0 <= j < i ==> crate::mode::comparable(
                            takhti@.surface(#[trigger] targets@[j]).connector.modes@,
                            target_of(takhti@.displays, takhti@.surface(targets@[j])),
                        ),
                decreases targets@.len() - i,
            {
                let key: SurfaceKey = targets[i];
                assert(targets@.contains(key));
                assert(takhti@.has(key));
                match data.get_surface(key) {
                    Some(surface) => {
                        let target: Resolution = takhti.settings.resolution_for(&surface.name);
                        if !crate::mode::is_comparable(&surface.connector.modes, target) {
                            return false;
                        }
                    },
                    None => {},
                }
                i += 1;
            }
            proof {
                assert forall|key: SurfaceKey| #[trigger]
                    takhti@.has(key) implies crate::mode::comparable(
                    takhti@.surface(key).connector.modes@,
                    target_of(takhti@.displays, takhti@.surface(key)),
                ) by {
                    assert(targets@.contains(key));
                    let j = choose|j: int| 0 <= j < targets@.len() && targets@[j] == key;
                    assert(takhti@.surface(targets@[j]) == takhti@.surface(key));
                }
            }
            true
        },
        Backend::Other => true,
    }
}

/// The compositor once an output has another mode.
pub open spec fn with_mode_set(takhti: TakhtiView, change: ModeChange) -> TakhtiView {
    if takhti.has(change.key) {
        let surface = takhti.surface(change.key);
        TakhtiView {
            tty: Some(
                takhti.tty->0.with_surface(
                    change.key,
                    TtySurface { pending_mode: change.mode, ..surface },
                ),
            ),
            outputs: crate::space::with_mode(
                takhti.outputs,
                surface.output,
                change.mode.client_mode(),
            ),
            ..takhti
        }
    } else {
        takhti
    }
}

/// The compositor once some outputs have other modes.
pub open spec fn with_modes_set(takhti: TakhtiView, changes: Seq<ModeChange>) -> TakhtiView
    decreases changes.len(),
{
    if changes.len() == 0 {
        takhti
    } else {
        with_mode_set(with_modes_set(takhti, changes.drop_last()), changes.last())
    }
}

impl TtyData {
    /// Puts down the mode that was set for a connected output.
    fn set_pending_mode(&mut self, key: SurfaceKey, mode: DisplayMode)
        requires
            old(self)@.has(key),
        ensures
            final(self)@ == old(self)@.with_surface(
                key,
                (TtySurface { pending_mode: mode, ..old(self)@.surface(key) }),
            ),
    {
        let ghost before = self@;
        match self.remove_surface(key) {
            Some(mut surface) => {
                surface.pending_mode = mode;
                let ghost changed = surface;
                self.put_surface(key, surface);
                proof {
                    let dev = key.node.dev;
                    let after = before.with_surface(key, changed);
                    assert(self@.devices[dev].surfaces =~= after.devices[dev].surfaces);
                    assert(self@.devices =~= after.devices);
                }
            },
            None => {},
        }
    }
}

/// Takes in the modes that outputs were given. Where there are any, the
/// outputs are packed again, since their widths may have changed, and every
/// output is to be repainted: the result then names the outputs for which an
/// idle callback that renders them has to be scheduled.
pub fn modes_set(takhti: &mut Takhti, changes: &Vec<ModeChange>) -> (schedule: Option<
    Vec<SurfaceKey>,
>)
    requires
        forall|i: int| 0 <= i < changes@.len() ==> (#[trigger] changes@[i]).mode.timed(),
        changes@.len() > 0 ==> crate::space::packable(
            with_modes_set(old(takhti)@, changes@).outputs,
        ),
    ensures
        schedule is Some <==> changes@.len() > 0,
        match schedule {
            Some(schedule) => {
                let set = with_modes_set(old(takhti)@, changes@);
                let repacked = TakhtiView { outputs: crate::space::packed(set.outputs), ..set };
                &&& crate::tty::lists_asking(repacked, schedule@)
                &&& final(takhti)@ == crate::tty::all_requested(repacked)
            },
            None => final(takhti)@ == old(takhti)@,
        },
{
    if changes.len() == 0 {
        return None;
    }
    let ghost before = takhti@;
    let mut i: usize = 0;
    while i < changes.len()
        invariant
            i <= changes@.len(),
            forall|j: int| 0 <= j < changes@.len() ==> (#[trigger] changes@[j]).mode.timed(),
            takhti@ == with_modes_set(before, changes@.take(i as int)),
        decreases changes@.len() - i,
    {
        let change: ModeChange = changes[i];
        proof {
            assert(changes@.take(i + 1).drop_last() =~= changes@.take(i as int));
            assert(changes@.take(i + 1).last() == change);
        }
        match &mut takhti.backend {
            Backend::Tty(data) => match data.get_surface(change.key) {
                Some(surface) => {
                    let output: u64 = surface.output;
                    data.set_pending_mode(change.key, change.mode);
                    takhti.space.set_mode(output, change.mode.to_mode());
                },
                None => {},
            },
            Backend::Other => {},
        }
        i += 1;
    }
    assert(changes@.take(i as int) =~= changes@);
    takhti.space.reposition_outputs();
    Some(crate::tty::queue_redraw_all(takhti))
}

/// Setting modes changes nothing about an output but its mode: that becomes
/// one of those set for it, if there are any.
proof fn lemma_modes_set(takhti: TakhtiView, changes: Seq<ModeChange>, key: SurfaceKey)
    ensures
        with_modes_set(takhti, changes).has(key) <==> takhti.has(key),
        with_modes_set(takhti, changes).displays == takhti.displays,
        takhti.has(key) ==> ({
            let was = takhti.surface(key);
            let now = with_modes_set(takhti, changes).surface(key);
            &&& now == (TtySurface { pending_mode: now.pending_mode, ..was })
            &&& changes.contains(ModeChange { key, mode: now.pending_mode }) || (now.pending_mode
                == was.pending_mode && forall|i: int|
                0 <= i < changes.len() ==> (#[trigger] changes[i]).key != key)
        }),
    decreases changes.len(),
{
    if changes.len() > 0 {
        let rest = changes.drop_last();
        let last = changes.last();
        lemma_modes_set(takhti, rest, key);
        lemma_modes_set(takhti, rest, last.key);
        assert(changes =~= rest.push(last));
        crate::state::lemma_push(rest, last);
        let before = with_modes_set(takhti, rest);
        let after = with_modes_set(takhti, changes);
        if takhti.has(key) {
            if last.key == key {
                assert(after.surface(key).pending_mode == last.mode);
            } else {
                assert(after.surface(key) == before.surface(key));
                assert forall|i: int| 0 <= i < changes.len() implies (#[trigger] changes[i]).key
                    != key || changes.contains(
                    ModeChange { key, mode: after.surface(key).pending_mode },
                ) by {
                    if i < rest.len() {
                        assert(rest[i] == changes[i]);
                    }
                }
            }
        }
    }
}

/// Once every mode that was due has been set, none is due any more.
pub proof fn all_modes_settle(takhti: TakhtiView, changes: Seq<ModeChange>, key: SurfaceKey)
    requires
        lists_changes(takhti, changes),
        takhti.has(key),
    ensures
        mode_due(takhti.displays, with_modes_set(takhti, changes).surface(key)) is None,
{
    lemma_modes_set(takhti, changes, key);
    match mode_due(takhti.displays, takhti.surface(key)) {
        Some(mode) => {
            let change = ModeChange { key, mode };
            assert(changes.contains(change));
            let i = choose|i: int| 0 <= i < changes.len() && changes[i] == change;
            assert(changes[i].key == key);
        },
        None => {},
    }
}

/// Applying the displays settings a second time does nothing.
pub proof fn displays_settings_apply_once(takhti: TakhtiView)
    requires
        displays_due(takhti),
    ensures
        !displays_due(displays_applied(takhti)),
{
}

/// Tests whether modes can be set: each has totals to divide its clock by, and
/// the outputs side by side stay within 32 bits.
pub fn modes_in_range(takhti: &Takhti, changes: &Vec<ModeChange>) -> (fine: bool)
    ensures
        fine == ((forall|i: int| 0 <= i < changes@.len() ==> (#[trigger] changes@[i]).mode.timed())
            && (changes@.len() > 0 ==> crate::space::packable(
            with_modes_set(takhti@, changes@).outputs,
        ))),
{
    if changes.len() == 0 {
        return true;
    }
    let mut space = takhti.space.duplicate();
    let mut i: usize = 0;
    while i < changes.len()
        invariant
            i <= changes@.len(),
            forall|j: int| 0 <= j < i ==> (#[trigger] changes@[j]).mode.timed(),
            space.outputs@ == with_modes_set(takhti@, changes@.take(i as int)).outputs,
        decreases changes@.len() - i,
    {
        let change: ModeChange = changes[i];
        if !change.mode.has_totals() {
            return false;
        }
        proof {
            lemma_modes_set(takhti@, changes@.take(i as int), change.key);
            assert(changes@.take(i + 1).drop_last() =~= changes@.take(i as int));
            assert(changes@.take(i + 1).last() == change);
        }
        match &takhti.backend {
            Backend::Tty(data) => match data.get_surface(change.key) {
                Some(surface) => {
                    space.set_mode(surface.output, change.mode.to_mode());
                },
                None => {},
            },
            Backend::Other => {},
        }
        i += 1;
    }
    assert(changes@.take(i as int) =~= changes@);
    space.row_in_range()
}

/// A device that appears is configured as any live device is, and is live from
/// then on, after those that were.
pub proof fn new_devices_are_configured(
    takhti: &mut Takhti,
    device: InputDevice,
    config: DeviceConfig,
    wanted: DeviceConfig,
)
    requires
        call_ensures(on_device_added, (takhti, device), config),
        call_ensures(
            crate::input::apply_device_config,
            (&old(takhti).settings.input, &device),
            wanted,
        ),
    ensures
        config == wanted,
        old(takhti)@.tty is None ==> final(takhti)@ == old(takhti)@,
        old(takhti)@.tty matches Some(was) ==> (final(takhti)@.tty matches Some(now)
            && now.input_devices.drop_last() == was.input_devices && now.input_devices.last()
            == device && now.input_devices.len() == was.input_devices.len() + 1),
        old(takhti)@.tty is Some ==> final(takhti)@ == (TakhtiView {
            tty: Some(
                TtyView {
                    input_devices: final(takhti)@.tty->0.input_devices,
                    ..old(takhti)@.tty->0
                },
            ),
            ..old(takhti)@
        }),
{
    if old(takhti)@.tty is Some {
        let was = old(takhti)@.tty->0.input_devices;
        assert(was.push(device).drop_last() =~= was);
    }
}

/// A device that goes is forgotten, and the others stay in their order.
pub proof fn gone_devices_are_forgotten(takhti: &mut Takhti, id: u64, device: InputDevice)
    requires
        call_ensures(on_device_removed, (takhti, id), ()),
    ensures
        old(takhti)@.tty is None ==> final(takhti)@ == old(takhti)@,
        old(takhti)@.tty matches Some(was) ==> (final(takhti)@.tty matches Some(now) && (
        now.input_devices.contains(device) <==> was.input_devices.contains(device) && device.id
            != id) && crate::space::subsequence(now.input_devices, was.input_devices)),
        old(takhti)@.tty is Some ==> final(takhti)@ == (TakhtiView {
            tty: Some(
                TtyView {
                    input_devices: final(takhti)@.tty->0.input_devices,
                    ..old(takhti)@.tty->0
                },
            ),
            ..old(takhti)@
        }),
{
    if old(takhti)@.tty is Some {
        let was = old(takhti)@.tty->0.input_devices;
        crate::state::lemma_filter_members(was, other_devices(id), device);
        crate::space::lemma_filter_in_order(was, other_devices(id));
    }
}

/// Input settings are applied where they are not those last applied, to every
/// live device in order, each as it would be configured by itself. They count as
/// applied from then on, and nothing else changes.
pub proof fn input_settings_reach_every_device(
    takhti: &mut Takhti,
    configs: Vec<DeviceConfig>,
    data: TtyData,
    same: bool,
    i: int,
    wanted: DeviceConfig,
)
    requires
        call_ensures(apply_libinput_settings, (takhti,), configs),
        old(takhti).backend == Backend::Tty(data),
        call_ensures(
            crate::input::InputConfig::same,
            (&old(takhti).settings.input, &data.last_input),
            same,
        ),
        0 <= i < data.input_devices@.len(),
        call_ensures(
            crate::input::apply_device_config,
            (&old(takhti).settings.input, &data.input_devices@[i]),
            wanted,
        ),
    ensures
        same ==> final(takhti)@ == old(takhti)@ && configs@.len() == 0,
        !same ==> {
            &&& configs@.len() == data.input_devices@.len()
            &&& configs@[i] == wanted
            &&& final(takhti)@.tty matches Some(now)
            &&& now.last_input == old(takhti)@.input
            &&& now.input_devices == data.input_devices@
            &&& now.devices == data@.devices
            &&& now.callbacks == data@.callbacks
            &&& now.last_displays == data@.last_displays
            &&& final(takhti)@.outputs == old(takhti)@.outputs
            &&& final(takhti)@.displays == old(takhti)@.displays
            &&& final(takhti)@.input == old(takhti)@.input
        },
{
}

/// Without the TTY backend no settings are applied.
pub proof fn other_backends_apply_nothing(
    inputs: &mut Takhti,
    configs: Vec<DeviceConfig>,
    displays: &mut Takhti,
    changes: Vec<ModeChange>,
)
    requires
        call_ensures(apply_libinput_settings, (inputs,), configs),
        call_ensures(apply_display_settings, (displays,), changes),
        old(inputs).backend is Other,
        old(displays).backend is Other,
    ensures
        configs@.len() == 0,
        changes@.len() == 0,
        final(inputs)@ == old(inputs)@,
        final(displays)@ == old(displays)@,
{
}

/// The displays settings have changed exactly if they are not, name by name,
/// those last applied.
pub proof fn displays_change_by_name(takhti: Takhti, changed: bool)
    requires
        call_ensures(displays_changed, (&takhti,), changed),
    ensures
        changed <==> takhti@.tty is Some && takhti@.displays != takhti@.tty->0.last_displays,
{
    lemma_displays_due(takhti@);
}

proof fn lemma_displays_due(takhti: TakhtiView)
    ensures
        displays_due(takhti) <==> takhti.tty is Some && takhti.displays
            != takhti.tty->0.last_displays,
{
    if takhti.tty is Some {
        let a = takhti.displays;
        let b = takhti.tty->0.last_displays;
        if crate::table::same_table(a, b) {
            assert forall|name: Seq<char>| #[trigger] a.contains_key(name) implies a[name]
                == b[name] by {
                assert(a[name].matched(b[name]));
            }
            assert(a =~= b);
        }
    }
}

/// The resolution that an output is to have: the entry under its name, or the
/// preferred mode as it is.
pub open spec fn configured_for(takhti: TakhtiView, surface: TtySurface) -> Resolution {
    if takhti.displays.contains_key(surface.name@) {
        takhti.displays[surface.name@]
    } else {
        Resolution {
            size: crate::mode::SizeSetting::Preferred,
            refresh: crate::mode::RefreshSetting::Auto,
        }
    }
}

/// When the displays settings have changed, an output is listed, once, exactly
/// if the whole mode that is picked for its resolution is not the one that it
/// has, and is listed with that mode. The settings count as applied from then
/// on, and nothing else changes yet.
pub proof fn changed_displays_list_every_change(
    takhti: &mut Takhti,
    changes: Vec<ModeChange>,
    node: DrmNode,
    crtc: u32,
    choice: Option<(DisplayMode, bool)>,
)
    requires
        call_ensures(apply_display_settings, (takhti,), changes),
        old(takhti)@.tty is Some,
        old(takhti)@.displays != old(takhti)@.tty->0.last_displays,
        old(takhti)@.connected(node, crtc),
        call_ensures(
            crate::mode::pick_mode,
            (
                &old(takhti)@.output_at(node, crtc).connector,
                configured_for(old(takhti)@, old(takhti)@.output_at(node, crtc)),
            ),
            choice,
        ),
    ensures
        ({
            let key = SurfaceKey { node, crtc };
            let surface = old(takhti)@.output_at(node, crtc);
            let listed = exists|i: int| 0 <= i < changes@.len() && (#[trigger] changes@[i]).key == key;
            &&& listed <==> (choice matches Some((mode, _)) && mode != surface.pending_mode)
            &&& forall|i: int|
                0 <= i < changes@.len() && (#[trigger] changes@[i]).key == key ==> (
                choice matches Some((mode, _)) && changes@[i].mode == mode)
            &&& forall|i: int, j: int|
                0 <= i < j < changes@.len() ==> (#[trigger] changes@[i]).key != (
                #[trigger] changes@[j]).key
            &&& final(takhti)@ == (TakhtiView {
                tty: Some(
                    TtyView { last_displays: old(takhti)@.displays, ..old(takhti)@.tty->0 },
                ),
                ..old(takhti)@
            })
        }),
{
    let before = old(takhti)@;
    let key = SurfaceKey { node, crtc };
    lemma_displays_due(before);
    assert(before.has(key));
    if let Some((mode, _)) = choice {
        let change = ModeChange { key, mode };
        if mode != before.surface(key).pending_mode {
            assert(changes@.contains(change));
            let i = choose|i: int| 0 <= i < changes@.len() && changes@[i] == change;
            assert(changes@[i].key == key);
        }
    }
    assert forall|i: int|
        0 <= i < changes@.len() && (#[trigger] changes@[i]).key == key implies mode_due(
        before.displays,
        before.surface(key),
    ) == Some(changes@[i].mode) by {
        assert(changes@.contains(changes@[i]));
    }
    lemma_changes_distinct(before, changes@);
}

proof fn lemma_changes_distinct(takhti: TakhtiView, changes: Seq<ModeChange>)
    requires
        lists_changes(takhti, changes),
    ensures
        forall|i: int, j: int|
            0 <= i < j < changes.len() ==> (#[trigger] changes[i]).key != (
            #[trigger] changes[j]).key,
{
    assert forall|i: int, j: int| 0 <= i < j < changes.len() implies (#[trigger] changes[i]).key
        != (#[trigger] changes[j]).key by {
        if changes[i].key == changes[j].key {
            assert(changes.contains(changes[i]));
            assert(changes.contains(changes[j]));
            assert(changes[i].mode == changes[j].mode);
            assert(changes[i] == changes[j]);
        }
    }
}

/// Where the displays settings are those last applied, nothing is listed and
/// nothing changes.
pub proof fn unchanged_displays_list_nothing(takhti: &mut Takhti, changes: Vec<ModeChange>)
    requires
        call_ensures(apply_display_settings, (takhti,), changes),
        old(takhti)@.tty is Some,
        old(takhti)@.displays == old(takhti)@.tty->0.last_displays,
    ensures
        changes@.len() == 0,
        final(takhti)@ == old(takhti)@,
{
    lemma_displays_due(old(takhti)@);
}

/// What is asked of an output's place survives packing and requests.
proof fn lemma_modes_survive(takhti: TakhtiView, changes: Seq<ModeChange>, node: DrmNode, crtc: u32)
    ensures
        ({
            let key = SurfaceKey { node, crtc };
            let set = with_modes_set(takhti, changes);
            let after = crate::tty::all_requested(
                TakhtiView { outputs: crate::space::packed(set.outputs), ..set },
            );
            &&& after.connected(node, crtc) <==> takhti.connected(node, crtc)
            &&& takhti.connected(node, crtc) ==> {
                let was = takhti.output_at(node, crtc);
                let now = after.output_at(node, crtc);
                &&& now.pending_mode == set.surface(key).pending_mode
                &&& now.output == was.output
                &&& now.name == was.name
                &&& now.connector == was.connector
                &&& now.global == was.global
            }
        }),
{
    let key = SurfaceKey { node, crtc };
    let set = with_modes_set(takhti, changes);
    lemma_modes_set(takhti, changes, key);
    if set.tty is Some {
        let tty = set.tty->0;
        let states = tty.with_states(tty.keys(), crate::tty::on_request());
        crate::state::lemma_with_states(tty, tty.keys(), crate::tty::on_request());
        assert(crate::tty::with_requests(tty, tty.keys()).devices == states.devices);
        assert(states.has(key) <==> tty.has(key));
        if tty.has(key) {
            assert(states.surface(key).pending_mode == tty.surface(key).pending_mode);
        }
    }
    lemma_tty_kept(takhti, changes);
}

proof fn lemma_tty_kept(takhti: TakhtiView, changes: Seq<ModeChange>)
    ensures
        with_modes_set(takhti, changes).tty is Some <==> takhti.tty is Some,
        takhti.tty is Some ==> with_modes_set(takhti, changes).tty->0.callbacks
            == takhti.tty->0.callbacks,
    decreases changes.len(),
{
    if changes.len() > 0 {
        lemma_tty_kept(takhti, changes.drop_last());
    }
}

/// A reload settles every mode. Once the modes that applying the displays
/// settings lists have been set, every output whose connector has modes is in
/// the whole mode that is picked for its resolution, and one without modes is in
/// the mode that it had. What else an output is stays as it was.
pub proof fn a_reload_settles_every_mode(
    applied: &mut Takhti,
    changes: Vec<ModeChange>,
    set: &mut Takhti,
    schedule: Option<Vec<SurfaceKey>>,
    node: DrmNode,
    crtc: u32,
    choice: Option<(DisplayMode, bool)>,
)
    requires
        call_ensures(apply_display_settings, (applied,), changes),
        call_ensures(modes_set, (set, &changes), schedule),
        old(set)@ == final(applied)@,
        old(applied)@.tty is Some,
        old(applied)@.displays != old(applied)@.tty->0.last_displays,
        old(applied)@.connected(node, crtc),
        call_ensures(
            crate::mode::pick_mode,
            (
                &old(applied)@.output_at(node, crtc).connector,
                configured_for(old(applied)@, old(applied)@.output_at(node, crtc)),
            ),
            choice,
        ),
    ensures
        ({
            let was = old(applied)@.output_at(node, crtc);
            let now = final(set)@.output_at(node, crtc);
            &&& final(set)@.connected(node, crtc)
            &&& choice matches Some((mode, _)) ==> now.pending_mode == mode
            &&& choice is None ==> now.pending_mode == was.pending_mode
            &&& choice is None <==> was.connector.modes@.len() == 0
            &&& now.name == was.name
            &&& now.connector == was.connector
            &&& now.output == was.output
            &&& now.global == was.global
        }),
{
    let before = old(applied)@;
    let start = old(set)@;
    let key = SurfaceKey { node, crtc };
    changed_displays_list_every_change(applied, changes, node, crtc, choice);
    lemma_displays_due(before);
    crate::mode::picked_mode_is_offered(
        before.surface(key).connector.modes@,
        target_of(before.displays, before.surface(key)),
    );
    assert(start.has(key) && start.surface(key) == before.surface(key));
    assert(lists_changes(start, changes@)) by {
        assert forall|change: ModeChange| #[trigger]
            changes@.contains(change) <==> start.has(change.key) && mode_due(
                start.displays,
                start.surface(change.key),
            ) == Some(change.mode) by {
            assert(before.has(change.key) <==> start.has(change.key));
            assert(before.has(change.key) ==> start.surface(change.key) == before.surface(
                change.key,
            ));
        }
    }
    lemma_modes_set(start, changes@, key);
    all_modes_settle(start, changes@, key);
    lemma_modes_survive(start, changes@, node, crtc);
    if changes@.len() == 0 {
        assert(with_modes_set(start, changes@) == start);
    }
    if choice is None {
        let mode = with_modes_set(start, changes@).surface(key).pending_mode;
        if changes@.contains(ModeChange { key, mode }) {
            let i = choose|i: int|
                0 <= i < changes@.len() && changes@[i] == (ModeChange { key, mode });
            assert(changes@[i].key == key);
        }
    }
}

/// Setting a mode gives one identity that mode, and leaves the others'.
proof fn lemma_mode_of_with_mode(outputs: Seq<crate::space::MappedOutput>, id: u64, mode: Mode, other: u64)
    requires
        crate::space::is_mapped(outputs, id),
        crate::space::is_mapped(outputs, other),
    ensures
        ({
            let after = crate::space::with_mode(outputs, id, mode);
            &&& crate::space::is_mapped(after, other)
            &&& crate::space::mode_of(after, other) == if other == id {
                Some(mode)
            } else {
                crate::space::mode_of(outputs, other)
            }
        }),
{
    let after = crate::space::with_mode(outputs, id, mode);
    crate::space::lemma_position(outputs, id);
    crate::space::lemma_position(outputs, other);
    let i = crate::space::position_of(outputs, other);
    assert(after[i].output.id == other);
    assert(crate::space::first_at(after, other, i)) by {
        assert forall|j: int| 0 <= j < i implies (#[trigger] after[j]).output.id != other by {
            assert(outputs[j].output.id != other);
        }
    }
    crate::space::lemma_position(after, other);
    let k = crate::space::position_of(after, other);
    if k < i {
        assert(after[k].output.id != other);
    }
    if i < k {
        assert(after[i].output.id != other);
    }
}

/// The mode of an identity after some outputs were given other modes.
proof fn lemma_client_modes(takhti: TakhtiView, changes: Seq<ModeChange>, key: SurfaceKey)
    requires
        takhti.coherent(),
        takhti.has(key),
        forall|i: int, j: int|
            0 <= i < j < changes.len() ==> (#[trigger] changes[i]).key != (
            #[trigger] changes[j]).key,
    ensures
        ({
            let after = with_modes_set(takhti, changes);
            let id = takhti.surface(key).output;
            &&& crate::space::is_mapped(after.outputs, id)
            &&& forall|i: int|
                0 <= i < changes.len() && (#[trigger] changes[i]).key == key
                    ==> crate::space::mode_of(after.outputs, id) == Some(
                    changes[i].mode.client_mode(),
                )
            &&& (forall|i: int| 0 <= i < changes.len() ==> (#[trigger] changes[i]).key != key)
                ==> crate::space::mode_of(after.outputs, id) == crate::space::mode_of(
                takhti.outputs,
                id,
            )
        }),
    decreases changes.len(),
{
    assert(crate::space::is_mapped(takhti.outputs, takhti.surface(key).output));
    if changes.len() > 0 {
        let rest = changes.drop_last();
        let last = changes.last();
        let before = with_modes_set(takhti, rest);
        assert forall|i: int, j: int| 0 <= i < j < rest.len() implies (#[trigger] rest[i]).key != (
        #[trigger] rest[j]).key by {
            assert(rest[i] == changes[i] && rest[j] == changes[j]);
        }
        lemma_client_modes(takhti, rest, key);
        lemma_modes_set(takhti, rest, last.key);
        assert forall|i: int| 0 <= i < rest.len() implies #[trigger] rest[i] == changes[i] by {}
        assert(changes[changes.len() - 1] == last);
        if takhti.has(last.key) {
            crate::coherence::modes_keep_coherence(takhti, rest);
            assert(before.has(last.key));
            let id = before.surface(last.key).output;
            assert(id == takhti.surface(last.key).output);
            assert(crate::space::is_mapped(before.outputs, id));
            lemma_mode_of_with_mode(
                before.outputs,
                id,
                last.mode.client_mode(),
                takhti.surface(key).output,
            );
            if last.key != key {
                assert(id != takhti.surface(key).output);
            }
        }
        let after = with_modes_set(takhti, changes);
        let id = takhti.surface(key).output;
        assert(crate::space::is_mapped(after.outputs, id));
        assert forall|i: int| 0 <= i < changes.len() && (#[trigger] changes[i]).key
            == key implies crate::space::mode_of(after.outputs, id) == Some(
            changes[i].mode.client_mode(),
        ) by {
            if i < rest.len() {
                assert(rest[i].key == key);
                assert(changes[i].key != changes[changes.len() - 1].key);
            }
        }
        if forall|i: int| 0 <= i < changes.len() ==> (#[trigger] changes[i]).key != key {
            assert forall|i: int| 0 <= i < rest.len() implies (#[trigger] rest[i]).key != key by {
                assert(changes[i].key != key);
            }
            assert(changes[changes.len() - 1].key != key);
        }
    }
}

/// Packing leaves every output's mode.
proof fn lemma_packed_modes(outputs: Seq<crate::space::MappedOutput>, id: u64)
    requires
        crate::space::is_mapped(outputs, id),
    ensures
        crate::space::mode_of(crate::space::packed(outputs), id) == crate::space::mode_of(
            outputs,
            id,
        ),
{
    let after = crate::space::packed(outputs);
    crate::space::lemma_position(outputs, id);
    let i = crate::space::position_of(outputs, id);
    assert(after[i].output.id == id);
    assert(crate::space::first_at(after, id, i)) by {
        assert forall|j: int| 0 <= j < i implies (#[trigger] after[j]).output.id != id by {
            assert(outputs[j].output.id != id);
        }
    }
    crate::space::lemma_position(after, id);
    let k = crate::space::position_of(after, id);
    if k < i {
        assert(after[k].output.id != id);
    }
    if i < k {
        assert(after[i].output.id != id);
    }
}

/// Once modes have been set, clients see of each output that got one what they
/// see of that mode, and of every other output the mode that it had. The
/// outputs form a row again, in their order, and every one of them is wanted,
/// with a callback asked for where it was idle and none was pending.
pub proof fn set_modes_are_seen(
    takhti: &mut Takhti,
    changes: Vec<ModeChange>,
    schedule: Option<Vec<SurfaceKey>>,
    node: DrmNode,
    crtc: u32,
    i: int,
    seen: Mode,
)
    requires
        call_ensures(modes_set, (takhti, &changes), schedule),
        old(takhti)@.coherent(),
        old(takhti)@.connected(node, crtc),
        forall|a: int, b: int|
            0 <= a < b < changes@.len() ==> (#[trigger] changes@[a]).key != (
            #[trigger] changes@[b]).key,
        0 <= i < changes@.len(),
        call_ensures(DisplayMode::to_mode, (&changes@[i].mode,), seen),
        crate::space::packable(with_modes_set(old(takhti)@, changes@).outputs),
    ensures
        ({
            let key = SurfaceKey { node, crtc };
            let id = old(takhti)@.output_at(node, crtc).output;
            let now = final(takhti)@;
            &&& changes@[i].key == key ==> now.output_at(node, crtc).pending_mode
                == changes@[i].mode && crate::space::mode_of(now.outputs, id) == Some(seen)
            &&& (forall|k: int| 0 <= k < changes@.len() ==> (#[trigger] changes@[k]).key != key)
                ==> now.output_at(node, crtc).pending_mode == old(takhti)@.output_at(
                node,
                crtc,
            ).pending_mode && crate::space::mode_of(now.outputs, id) == crate::space::mode_of(
                old(takhti)@.outputs,
                id,
            )
            &&& crate::space::in_a_row(now.outputs)
            &&& now.outputs.len() == old(takhti)@.outputs.len()
            &&& crate::pacing::wants_redraw(now.output_at(node, crtc).redraw_state)
            &&& schedule matches Some(schedule)
            &&& schedule@.no_duplicates()
            &&& schedule@.contains(key) <==> old(takhti)@.output_at(node, crtc).redraw_state is Idle
                && !old(takhti)@.tty->0.callbacks.contains(key)
        }),
{
    let key = SurfaceKey { node, crtc };
    let before = old(takhti)@;
    let set = with_modes_set(before, changes@);
    let repacked = TakhtiView { outputs: crate::space::packed(set.outputs), ..set };
    lemma_client_modes(before, changes@, key);
    lemma_modes_set(before, changes@, key);
    lemma_modes_survive(before, changes@, node, crtc);
    lemma_packed_modes(set.outputs, before.surface(key).output);
    lemma_outputs_len(before, changes@);
    lemma_tty_kept(before, changes@);
    crate::space::lemma_packed_in_a_row(set.outputs);
    crate::pacing::a_request_for_all_reaches_every_output(repacked, key);
    if changes@[i].key == key {
        let mode = set.surface(key).pending_mode;
        assert(changes@.contains(ModeChange { key, mode }));
        let k = choose|k: int| 0 <= k < changes@.len() && changes@[k] == (ModeChange { key, mode });
        if k != i {
            assert(changes@[k].key == changes@[i].key);
        }
    } else if forall|k: int| 0 <= k < changes@.len() ==> (#[trigger] changes@[k]).key != key {
        let mode = set.surface(key).pending_mode;
        if changes@.contains(ModeChange { key, mode }) {
            let k = choose|k: int|
                0 <= k < changes@.len() && changes@[k] == (ModeChange { key, mode });
            assert(changes@[k].key == key);
        }
    }
}

proof fn lemma_outputs_len(takhti: TakhtiView, changes: Seq<ModeChange>)
    ensures
        with_modes_set(takhti, changes).outputs.len() == takhti.outputs.len(),
    decreases changes.len(),
{
    if changes.len() > 0 {
        lemma_outputs_len(takhti, changes.drop_last());
        let before = with_modes_set(takhti, changes.drop_last());
        let key = changes.last().key;
        if before.has(key) && crate::space::is_mapped(before.outputs, before.surface(key).output) {
            crate::space::lemma_position(before.outputs, before.surface(key).output);
        }
    }
}

/// Without modes to set, nothing changes and nothing is scheduled.
pub proof fn no_modes_set_nothing(
    takhti: &mut Takhti,
    changes: Vec<ModeChange>,
    schedule: Option<Vec<SurfaceKey>>,
)
    requires
        call_ensures(modes_set, (takhti, &changes), schedule),
        changes@.len() == 0,
    ensures
        schedule is None,
        final(takhti)@ == old(takhti)@,
{
}

/// Users are warned of exactly the outputs for which picking a mode falls back.
pub proof fn fallbacks_are_named(
    takhti: Takhti,
    outputs: Vec<SurfaceKey>,
    node: DrmNode,
    crtc: u32,
    choice: Option<(DisplayMode, bool)>,
)
    requires
        call_ensures(fallback_outputs, (&takhti,), outputs),
        takhti@.connected(node, crtc),
        call_ensures(
            crate::mode::pick_mode,
            (
                &takhti@.output_at(node, crtc).connector,
                configured_for(takhti@, takhti@.output_at(node, crtc)),
            ),
            choice,
        ),
    ensures
        outputs@.contains(SurfaceKey { node, crtc }) <==> (choice matches Some((_, fallback))
            && fallback),
        outputs@.no_duplicates(),
{
    assert(takhti@.has(SurfaceKey { node, crtc }));
}

/// Modes can be picked for every output exactly if they can for each.
pub proof fn outputs_are_comparable_one_by_one(takhti: Takhti, fine: bool)
    requires
        call_ensures(are_comparable, (&takhti,), fine),
        forall|node: DrmNode, crtc: u32| #[trigger]
            takhti@.connected(node, crtc) ==> call_ensures(
                crate::mode::is_comparable,
                (
                    &takhti@.output_at(node, crtc).connector.modes,
                    configured_for(takhti@, takhti@.output_at(node, crtc)),
                ),
                true,
            ),
    ensures
        fine,
{
    assert forall|key: SurfaceKey| #[trigger] takhti@.has(key) implies crate::mode::comparable(
        takhti@.surface(key).connector.modes@,
        target_of(takhti@.displays, takhti@.surface(key)),
    ) by {
        assert(takhti@.connected(key.node, key.crtc));
    }
}

/// Modes that have totals can be set on outputs of any ordinary number and size.
pub proof fn ordinary_modes_can_be_set(takhti: Takhti, changes: Vec<ModeChange>, fine: bool)
    requires
        call_ensures(modes_in_range, (&takhti, &changes), fine),
        forall|i: int|
            0 <= i < changes@.len() ==> (#[trigger] changes@[i]).mode.htotal > 0
                && changes@[i].mode.vtotal > 0,
        takhti@.outputs.len() <= 0x4000,
        forall|i: int|
            0 <= i < takhti@.outputs.len() ==> {
                (#[trigger] takhti@.outputs[i]).output.mode matches Some(mode) ==> 0 <= mode.size.w
                    <= 0x1_0000 && 0 <= mode.size.h <= 0x1_0000
            },
    ensures
        fine,
{
    lemma_ordinary_outputs(takhti@, changes@);
    lemma_outputs_len(takhti@, changes@);
    crate::space::lemma_ordinary_rows_fit(with_modes_set(takhti@, changes@).outputs);
}

proof fn lemma_ordinary_outputs(takhti: TakhtiView, changes: Seq<ModeChange>)
    requires
        forall|i: int|
            0 <= i < takhti.outputs.len() ==> {
                (#[trigger] takhti.outputs[i]).output.mode matches Some(mode) ==> 0 <= mode.size.w
                    <= 0x1_0000 && 0 <= mode.size.h <= 0x1_0000
            },
    ensures
        ({
            let outputs = with_modes_set(takhti, changes).outputs;
            forall|i: int|
                0 <= i < outputs.len() ==> {
                    (#[trigger] outputs[i]).output.mode matches Some(mode) ==> 0 <= mode.size.w
                        <= 0x1_0000 && 0 <= mode.size.h <= 0x1_0000
                }
        }),
    decreases changes.len(),
{
    if changes.len() > 0 {
        lemma_ordinary_outputs(takhti, changes.drop_last());
        let before = with_modes_set(takhti, changes.drop_last());
        let key = changes.last().key;
        if before.has(key) && crate::space::is_mapped(before.outputs, before.surface(key).output) {
            crate::space::lemma_position(before.outputs, before.surface(key).output);
        }
    }
}

} // verus!
