//! The compositor's state: the outputs of every GPU on the seat, the live
//! input devices, and the settings as they were last applied.

use std::collections::HashMap;

use vstd::prelude::*;

use calloop::RegistrationToken;

use crate::input::{InputConfig, InputConfigView, InputDevice};
use crate::mode::{ConnectorInfo, DisplayMode, RefreshSetting, Resolution, SizeSetting};
use crate::node::DrmNode;
use crate::redraw::RedrawState;
use crate::space::{MappedOutput, PhysicalSpace};
use crate::table::{Matches, NamedTable};

verus! {

broadcast use vstd::std_specs::hash::group_hash_axioms;

impl Matches for Resolution {
    open spec fn matched(self, other: Resolution) -> bool {
        self == other
    }

    fn matches(&self, other: &Resolution) -> (same: bool) {
        *self == *other
    }
}

/// A connected output.
#[derive(Debug)]
pub struct TtySurface {
    /// The identity of the output.
    pub output: u64,
    /// The name of the output.
    pub name: String,
    /// As of connect time; modes cannot change without a hotplug, which tears
    /// the surface down anyway.
    pub connector: ConnectorInfo,
    /// The mode that was last set.
    pub pending_mode: DisplayMode,
    pub redraw_state: RedrawState,
    /// The output's protocol global, removed again when it disconnects.
    pub global: u64,
}

/// One GPU on the seat.
#[derive(Debug)]
pub struct OutputDevice {
    /// None for display-only devices; their outputs render on the primary GPU.
    pub render_node: Option<DrmNode>,
    /// The device's event source, removed with the device.
    pub token: RegistrationToken,
    /// The connected outputs by the number of their scanout engine.
    pub surfaces: HashMap<u32, TtySurface>,
}

/// What the TTY backend keeps.
#[derive(Debug)]
pub struct TtyData {
    pub primary_node: DrmNode,
    pub primary_render_node: DrmNode,
    /// The devices by their device number.
    pub devices: HashMap<u64, OutputDevice>,
    /// The dmabuf global is created once, when the primary GPU comes up.
    pub dmabuf_global_created: bool,
    /// The displays settings as of the last time they were applied.
    pub last_displays: NamedTable<Resolution>,
    /// The input settings as of the last time they were applied.
    pub last_input: InputConfig,
    /// The live input devices.
    pub input_devices: Vec<InputDevice>,
    /// The outputs for which an idle callback is pending. One outlasts its
    /// output: the event loop still runs it after an output was unplugged.
    pub callbacks: Vec<SurfaceKey>,
}

/// What drives the outputs.
#[derive(Debug)]
pub enum Backend {
    /// GPUs and input devices, through a session on a seat.
    Tty(TtyData),
    /// Anything else, such as a window of another compositor.
    Other,
}

/// The settings in force.
#[derive(Debug)]
pub struct Settings {
    /// Resolutions by output name.
    pub displays: NamedTable<Resolution>,
    pub input: InputConfig,
}

/// The compositor.
#[derive(Debug)]
pub struct Takhti {
    pub backend: Backend,
    pub settings: Settings,
    pub space: PhysicalSpace,
    /// Whether clients can use explicit synchronisation.
    pub explicit_sync: bool,
}

/// Names a connected output: its device and its scanout engine there.
#[derive(Clone, Copy, Debug, PartialEq, Eq, Structural)]
pub struct SurfaceKey {
    pub node: DrmNode,
    pub crtc: u32,
}

/// A GPU, as a value.
#[verifier::ext_equal]
pub struct DeviceView {
    pub render_node: Option<DrmNode>,
    pub token: RegistrationToken,
    pub surfaces: Map<u32, TtySurface>,
}

/// What the TTY backend keeps, as a value.
#[verifier::ext_equal]
pub struct TtyView {
    pub primary_node: DrmNode,
    pub primary_render_node: DrmNode,
    pub devices: Map<u64, DeviceView>,
    pub dmabuf_global_created: bool,
    pub last_displays: Map<Seq<char>, Resolution>,
    pub last_input: InputConfigView,
    pub input_devices: Seq<InputDevice>,
    pub callbacks: Set<SurfaceKey>,
}

/// The compositor, as a value.
#[verifier::ext_equal]
pub struct TakhtiView {
    /// Absent where another backend drives the outputs.
    pub tty: Option<TtyView>,
    pub displays: Map<Seq<char>, Resolution>,
    pub input: InputConfigView,
    pub outputs: Seq<MappedOutput>,
    pub explicit_sync: bool,
}

impl View for OutputDevice {
    type V = DeviceView;

    open spec fn view(&self) -> DeviceView {
        DeviceView {
            render_node: self.render_node,
            token: self.token,
            surfaces: self.surfaces@,
        }
    }
}

/// A device, as a value.
pub open spec fn device_view() -> spec_fn(OutputDevice) -> DeviceView {
    |device: OutputDevice| device@
}

impl View for TtyData {
    type V = TtyView;

    open spec fn view(&self) -> TtyView {
        TtyView {
            primary_node: self.primary_node,
            primary_render_node: self.primary_render_node,
            devices: self.devices@.map_values(device_view()),
            dmabuf_global_created: self.dmabuf_global_created,
            last_displays: self.last_displays@,
            last_input: self.last_input@,
            input_devices: self.input_devices@,
            callbacks: self.callbacks@.to_set(),
        }
    }
}

impl View for Takhti {
    type V = TakhtiView;

    open spec fn view(&self) -> TakhtiView {
        TakhtiView {
            tty: match self.backend {
                Backend::Tty(data) => Some(data@),
                Backend::Other => None,
            },
            displays: self.settings.displays@,
            input: self.settings.input@,
            outputs: self.space.outputs@,
            explicit_sync: self.explicit_sync,
        }
    }
}

/// The resolution of an output by its name. What has no entry is left at its
/// preferred mode.
pub open spec fn resolution_of(displays: Map<Seq<char>, Resolution>, name: Seq<char>) -> Resolution {
    if displays.contains_key(name) {
        displays[name]
    } else {
        Resolution { size: SizeSetting::Preferred, refresh: RefreshSetting::Auto }
    }
}

impl Settings {
    /// The resolution that is configured for an output.
    pub fn resolution_for(&self, name: &String) -> (resolution: Resolution)
        ensures
            resolution == resolution_of(self.displays@, name@),
    {
        match self.displays.get(name) {
            Some(resolution) => resolution,
            None => Resolution { size: SizeSetting::Preferred, refresh: RefreshSetting::Auto },
        }
    }
}

impl TtyView {
    /// Whether an output is connected.
    pub open spec fn has(self, key: SurfaceKey) -> bool {
        self.devices.contains_key(key.node.dev) && self.devices[key.node.dev].surfaces.contains_key(
            key.crtc,
        )
    }

    /// A connected output.
    pub open spec fn surface(self, key: SurfaceKey) -> TtySurface {
        self.devices[key.node.dev].surfaces[key.crtc]
    }

    /// The same with another output in this place.
    pub open spec fn with_surface(self, key: SurfaceKey, surface: TtySurface) -> TtyView {
        let device = self.devices[key.node.dev];
        TtyView {
            devices: self.devices.insert(
                key.node.dev,
                DeviceView { surfaces: device.surfaces.insert(key.crtc, surface), ..device },
            ),
            ..self
        }
    }

    /// The same without the output in this place.
    pub open spec fn without_surface(self, key: SurfaceKey) -> TtyView {
        let device = self.devices[key.node.dev];
        TtyView {
            devices: self.devices.insert(
                key.node.dev,
                DeviceView { surfaces: device.surfaces.remove(key.crtc), ..device },
            ),
            ..self
        }
    }

    /// The same with the output in another redraw state.
    pub open spec fn with_state(self, key: SurfaceKey, state: RedrawState) -> TtyView {
        self.with_surface(key, TtySurface { redraw_state: state, ..self.surface(key) })
    }

    /// The same with an idle callback pending for an output, if so asked.
    pub open spec fn with_callback(self, key: SurfaceKey, asked: bool) -> TtyView {
        TtyView {
            callbacks: if asked {
                self.callbacks.insert(key)
            } else {
                self.callbacks
            },
            ..self
        }
    }

    /// The same with some outputs' redraw states changed.
    pub open spec fn with_states(
        self,
        keys: Set<SurfaceKey>,
        change: spec_fn(RedrawState) -> RedrawState,
    ) -> TtyView {
        TtyView {
            devices: self.devices.map_entries(
                |dev: u64, device: DeviceView|
                    DeviceView {
                        surfaces: device.surfaces.map_entries(
                            |crtc: u32, surface: TtySurface|
                                if keys.contains(SurfaceKey { node: DrmNode { dev }, crtc }) {
                                    TtySurface {
                                        redraw_state: change(surface.redraw_state),
                                        ..surface
                                    }
                                } else {
                                    surface
                                },
                        ),
                        ..device
                    },
            ),
            ..self
        }
    }

    /// Every connected output.
    pub open spec fn keys(self) -> Set<SurfaceKey> {
        Set::new(|key: SurfaceKey| self.has(key))
    }
}

impl TakhtiView {
    /// Whether an output is connected to the TTY backend.
    pub open spec fn has(self, key: SurfaceKey) -> bool {
        self.tty matches Some(tty) && tty.has(key)
    }

    /// An output that is connected to the TTY backend.
    pub open spec fn surface(self, key: SurfaceKey) -> TtySurface {
        self.tty->0.surface(key)
    }

    /// The same with an output in another redraw state.
    pub open spec fn with_state(self, key: SurfaceKey, state: RedrawState) -> TakhtiView {
        TakhtiView { tty: Some(self.tty->0.with_state(key, state)), ..self }
    }

    /// Whether an idle callback is pending for an output.
    pub open spec fn pending(self, key: SurfaceKey) -> bool {
        self.tty matches Some(tty) && tty.callbacks.contains(key)
    }

    /// The same with these idle callbacks pending.
    pub open spec fn with_callbacks(self, callbacks: Set<SurfaceKey>) -> TakhtiView {
        TakhtiView { tty: Some(TtyView { callbacks, ..self.tty->0 }), ..self }
    }

    /// The same with an idle callback pending for an output, if so asked.
    pub open spec fn with_callback(self, key: SurfaceKey, asked: bool) -> TakhtiView {
        TakhtiView { tty: Some(self.tty->0.with_callback(key, asked)), ..self }
    }
}

impl TtyData {
    /// Whether an output is connected.
    pub fn contains(&self, key: SurfaceKey) -> (found: bool)
        ensures
            found == self@.has(key),
    {
        match self.devices.get(&key.node.dev) {
            Some(device) => device.surfaces.contains_key(&key.crtc),
            None => false,
        }
    }

    /// A connected output.
    pub fn get_surface(&self, key: SurfaceKey) -> (surface: Option<&TtySurface>)
        ensures
            match surface {
                Some(surface) => self@.has(key) && *surface == self@.surface(key),
                None => !self@.has(key),
            },
    {
        match self.devices.get(&key.node.dev) {
            Some(device) => device.surfaces.get(&key.crtc),
            None => None,
        }
    }

    /// Where the frames of a device are rendered for: the device itself, or the
    /// primary GPU where it is display-only.
    pub(crate) fn render_node_for(&self, node: DrmNode) -> (render_node: DrmNode)
        requires
            self@.devices.contains_key(node.dev),
        ensures
            render_node == match self@.devices[node.dev].render_node {
                Some(own) => own,
                None => self@.primary_render_node,
            },
    {
        match self.devices.get(&node.dev) {
            Some(device) => match device.render_node {
                Some(own) => own,
                None => self.primary_render_node,
            },
            None => self.primary_render_node,
        }
    }

    /// Takes a connected output out of its place.
    pub(crate) fn remove_surface(&mut self, key: SurfaceKey) -> (surface: Option<TtySurface>)
        ensures
            match surface {
                Some(surface) => old(self)@.has(key) && surface == old(self)@.surface(key)
                    && final(self)@ == old(self)@.without_surface(key),
                None => !old(self)@.has(key) && final(self)@ == old(self)@,
            },
    {
        let ghost before = self@;
        match self.devices.remove(&key.node.dev) {
            Some(mut device) => {
                let ghost was = device@;
                let surface = device.surfaces.remove(&key.crtc);
                let ghost now = device@;
                self.devices.insert(key.node.dev, device);
                proof {
                    assert(self@.devices =~= before.devices.insert(key.node.dev, now));
                    if surface is None {
                        assert(now.surfaces =~= was.surfaces);
                        assert(self@.devices =~= before.devices);
                    }
                }
                surface
            },
            None => {
                assert(self@.devices =~= before.devices);
                None
            },
        }
    }

    /// Puts an output in its place on a device that is there.
    pub(crate) fn put_surface(&mut self, key: SurfaceKey, surface: TtySurface)
        requires
            old(self)@.devices.contains_key(key.node.dev),
        ensures
            final(self)@ == old(self)@.with_surface(key, surface),
    {
        let ghost before = self@;
        match self.devices.remove(&key.node.dev) {
            Some(mut device) => {
                device.surfaces.insert(key.crtc, surface);
                let ghost now = device@;
                self.devices.insert(key.node.dev, device);
                assert(self@.devices =~= before.devices.insert(key.node.dev, now));
            },
            None => {},
        }
    }

    /// Puts a connected output in another redraw state.
    pub(crate) fn set_state(&mut self, key: SurfaceKey, state: RedrawState)
        requires
            old(self)@.has(key),
        ensures
            final(self)@ == old(self)@.with_state(key, state),
    {
        let ghost before = self@;
        match self.remove_surface(key) {
            Some(mut surface) => {
                surface.redraw_state = state;
                self.put_surface(key, surface);
                proof {
                    let dev = key.node.dev;
                    assert(self@.devices[dev].surfaces =~= before.with_state(
                        key,
                        state,
                    ).devices[dev].surfaces);
                    assert(self@.devices =~= before.with_state(key, state).devices);
                }
            },
            None => {},
        }
    }

    /// Whether an idle callback is pending for an output.
    pub fn is_pending(&self, key: SurfaceKey) -> (pending: bool)
        ensures
            pending == self@.callbacks.contains(key),
    {
        let mut i: usize = 0;
        while i < self.callbacks.len()
            invariant
                i <= self.callbacks@.len(),
                forall|j: int| 0 <= j < i ==> self.callbacks@[j] != key,
            decreases self.callbacks@.len() - i,
        {
            if self.callbacks[i] == key {
                assert(self.callbacks@.contains(key));
                return true;
            }
            i += 1;
        }
        assert(!self.callbacks@.contains(key));
        false
    }

    /// Puts down that an idle callback is pending for an output, if so asked.
    pub(crate) fn note_callback(&mut self, key: SurfaceKey, asked: bool)
        ensures
            final(self)@ == old(self)@.with_callback(key, asked),
    {
        if asked {
            let ghost before = self.callbacks@;
            self.callbacks.push(key);
            proof {
                lemma_push(before, key);
                assert forall|other: SurfaceKey| #[trigger]
                    self.callbacks@.to_set().contains(other) <==> before.to_set().insert(
                        key,
                    ).contains(other) by {
                    assert(self.callbacks@.to_set().contains(other) <==> self.callbacks@.contains(
                        other,
                    ));
                    assert(before.to_set().contains(other) <==> before.contains(other));
                }
                assert(self.callbacks@.to_set() =~= before.to_set().insert(key));
            }
        }
    }

    /// Strikes out the pending idle callback of an output.
    pub(crate) fn forget_callback(&mut self, key: SurfaceKey)
        ensures
            final(self)@ == (TtyView {
                callbacks: old(self)@.callbacks.remove(key),
                ..old(self)@
            }),
    {
        let ghost before = self.callbacks@;
        let mut kept: Vec<SurfaceKey> = Vec::new();
        let mut i: usize = 0;
        while i < self.callbacks.len()
            invariant
                i <= before.len(),
                self.callbacks@ == before,
                *self == *old(self),
                forall|other: SurfaceKey| #[trigger]
                    kept@.contains(other) <==> before.take(i as int).contains(other) && other != key,
            decreases before.len() - i,
        {
            let other: SurfaceKey = self.callbacks[i];
            proof {
                assert(before.take(i + 1) =~= before.take(i as int).push(other));
                lemma_push(before.take(i as int), other);
                lemma_push(kept@, other);
            }
            if other != key {
                kept.push(other);
            }
            i += 1;
        }
        self.callbacks = kept;
        proof {
            assert(before.take(i as int) =~= before);
            assert forall|other: SurfaceKey| #[trigger]
                self.callbacks@.to_set().contains(other) <==> before.to_set().remove(key).contains(
                    other,
                ) by {
                assert(self.callbacks@.to_set().contains(other) <==> self.callbacks@.contains(other));
                assert(before.to_set().contains(other) <==> before.contains(other));
            }
            assert(self.callbacks@.to_set() =~= before.to_set().remove(key));
        }
    }

    /// The numbers of the devices, in no particular order.
    pub fn nodes(&self) -> (nodes: Vec<u64>)
        ensures
            nodes@.no_duplicates(),
            nodes@.to_set() == self@.devices.dom(),
    {
        let mut nodes: Vec<u64> = Vec::new();
        let ghost all = vstd::std_specs::iter::IteratorSpec::remaining(
            &vstd::std_specs::hash::spec_keys_iter(&self.devices),
        );
        for dev in it: self.devices.keys()
            invariant
                nodes@ == it.seq().take(it.index()).unref(),
        {
            nodes.push(*dev);
        }
        proof {
            assert(nodes@ =~= all.unref());
        }
        nodes
    }

    /// Every connected output, in no particular order.
    pub fn targets(&self) -> (targets: Vec<SurfaceKey>)
        ensures
            targets@.no_duplicates(),
            targets@.to_set() == self@.keys(),
    {
        let nodes = self.nodes();
        let mut targets: Vec<SurfaceKey> = Vec::new();
        let mut i: usize = 0;
        while i < nodes.len()
            invariant
                i <= nodes@.len(),
                nodes@.no_duplicates(),
                nodes@.to_set() == self@.devices.dom(),
                targets@.no_duplicates(),
                forall|key: SurfaceKey| #[trigger]
                    targets@.contains(key) <==> self@.has(key) && nodes@.take(i as int).contains(
                        key.node.dev,
                    ),
            decreases nodes@.len() - i,
        {
            let dev: u64 = nodes[i];
            assert(nodes@.to_set().contains(dev));
            let ghost done = nodes@.take(i as int);
            assert(!done.contains(dev));
            assert(nodes@.take(i + 1) =~= done.push(dev));
            match self.devices.get(&dev) {
                Some(device) => {
                    let crtcs = engines(device);
                    let mut j: usize = 0;
                    while j < crtcs.len()
                        invariant
                            j <= crtcs@.len(),
                            crtcs@.no_duplicates(),
                            crtcs@.to_set() == self@.devices[dev].surfaces.dom(),
                            self@.devices.contains_key(dev),
                            !done.contains(dev),
                            targets@.no_duplicates(),
                            forall|key: SurfaceKey| #[trigger]
                                targets@.contains(key) <==> (self@.has(key) && done.contains(
                                    key.node.dev,
                                )) || (key.node.dev == dev && crtcs@.take(j as int).contains(
                                    key.crtc,
                                )),
                        decreases crtcs@.len() - j,
                    {
                        let key = SurfaceKey { node: DrmNode { dev }, crtc: crtcs[j] };
                        assert(crtcs@.take(j + 1) =~= crtcs@.take(j as int).push(key.crtc));
                        assert(!crtcs@.take(j as int).contains(key.crtc));
                        assert(!targets@.contains(key));
                        let ghost before = targets@;
                        targets.push(key);
                        proof {
                            lemma_push(before, key);
                            lemma_push(crtcs@.take(j as int), key.crtc);
                        }
                        j += 1;
                    }
                    proof {
                        assert(crtcs@.take(j as int) =~= crtcs@);
                        lemma_push(done, dev);
                        assert forall|key: SurfaceKey| #[trigger]
                            targets@.contains(key) <==> self@.has(key) && nodes@.take(
                            i + 1,
                        ).contains(key.node.dev) by {
                            assert(crtcs@.contains(key.crtc) <==> crtcs@.to_set().contains(key.crtc));
                        }
                    }
                },
                None => {
                    assert(false);
                },
            }
            i += 1;
        }
        proof {
            assert(nodes@.take(i as int) =~= nodes@);
            assert forall|key: SurfaceKey| targets@.to_set().contains(key) <==> self@.keys().contains(
                key,
            ) by {
                assert(targets@.to_set().contains(key) <==> targets@.contains(key));
                assert(nodes@.to_set().contains(key.node.dev) <==> nodes@.contains(key.node.dev));
            }
            assert(targets@.to_set() =~= self@.keys());
        }
        targets
    }
}

/// The scanout engines of a device that have an output, in no particular order.
pub(crate) fn engines(device: &OutputDevice) -> (crtcs: Vec<u32>)
    ensures
        crtcs@.no_duplicates(),
        crtcs@.to_set() == device.surfaces@.dom(),
{
    let mut crtcs: Vec<u32> = Vec::new();
    let ghost all = vstd::std_specs::iter::IteratorSpec::remaining(
        &vstd::std_specs::hash::spec_keys_iter(&device.surfaces),
    );
    for crtc in it: device.surfaces.keys()
        invariant
            crtcs@ == it.seq().take(it.index()).unref(),
    {
        crtcs.push(*crtc);
    }
    proof {
        assert(crtcs@ =~= all.unref());
    }
    crtcs
}

/// Appending something new keeps a sequence free of repetition.
pub(crate) proof fn lemma_push<A>(s: Seq<A>, a: A)
    ensures
        forall|b: A| #[trigger] s.push(a).contains(b) <==> s.contains(b) || b == a,
        s.no_duplicates() && !s.contains(a) ==> s.push(a).no_duplicates(),
{
    assert forall|b: A| #[trigger] s.push(a).contains(b) <==> s.contains(b) || b == a by {
        if s.contains(b) {
            let i = choose|i: int| 0 <= i < s.len() && s[i] == b;
            assert(s.push(a)[i] == b);
        }
        if b == a {
            assert(s.push(a)[s.len() as int] == b);
        }
        if s.push(a).contains(b) {
            let i = choose|i: int| 0 <= i < s.push(a).len() && s.push(a)[i] == b;
            if i < s.len() {
                assert(s[i] == b);
            }
        }
    }
}

/// Changing the states of some outputs touches no other part of an output and
/// connects or disconnects none.
pub(crate) proof fn lemma_with_states(
    view: TtyView,
    keys: Set<SurfaceKey>,
    change: spec_fn(RedrawState) -> RedrawState,
)
    ensures
        forall|key: SurfaceKey| #[trigger]
            view.with_states(keys, change).has(key) <==> view.has(key),
        forall|key: SurfaceKey|
            view.has(key) ==> #[trigger] view.with_states(keys, change).surface(key) == (
            if keys.contains(key) {
                TtySurface {
                    redraw_state: change(view.surface(key).redraw_state),
                    ..view.surface(key)
                }
            } else {
                view.surface(key)
            }),
{
}

/// With no outputs named, nothing changes.
pub(crate) proof fn lemma_with_states_empty(
    view: TtyView,
    change: spec_fn(RedrawState) -> RedrawState,
)
    ensures
        view.with_states(Set::empty(), change) == view,
{
    let after = view.with_states(Set::empty(), change);
    assert forall|dev: u64| view.devices.contains_key(dev) implies #[trigger] after.devices[dev]
        == view.devices[dev] by {
        assert(after.devices[dev].surfaces =~= view.devices[dev].surfaces);
    }
    assert(after.devices =~= view.devices);
}

/// Changing one more output.
pub(crate) proof fn lemma_with_states_insert(
    view: TtyView,
    keys: Set<SurfaceKey>,
    key: SurfaceKey,
    change: spec_fn(RedrawState) -> RedrawState,
)
    requires
        view.has(key),
        !keys.contains(key),
    ensures
        view.with_states(keys, change).with_state(key, change(view.surface(key).redraw_state))
            == view.with_states(keys.insert(key), change),
{
    let step = view.with_states(keys, change).with_state(
        key,
        change(view.surface(key).redraw_state),
    );
    let after = view.with_states(keys.insert(key), change);
    assert forall|dev: u64| view.devices.contains_key(dev) implies #[trigger] after.devices[dev]
        == step.devices[dev] by {
        assert(after.devices[dev].surfaces =~= step.devices[dev].surfaces);
    }
    assert(after.devices =~= step.devices);
}

/// The set of a prefix, one longer.
pub(crate) proof fn lemma_prefix_set<A>(s: Seq<A>, i: int)
    requires
        0 <= i < s.len(),
        s.no_duplicates(),
    ensures
        s.take(i + 1).to_set() == s.take(i).to_set().insert(s[i]),
        !s.take(i).to_set().contains(s[i]),
{
    assert(s.take(i + 1) =~= s.take(i).push(s[i]));
    lemma_push(s.take(i), s[i]);
    assert forall|a: A| s.take(i + 1).to_set().contains(a) <==> s.take(i).to_set().insert(
        s[i],
    ).contains(a) by {
        assert(s.take(i + 1).to_set().contains(a) <==> s.take(i + 1).contains(a));
        assert(s.take(i).to_set().contains(a) <==> s.take(i).contains(a));
    }
    assert(s.take(i + 1).to_set() =~= s.take(i).to_set().insert(s[i]));
}

/// Filtering keeps what qualifies, and nothing else.
pub(crate) proof fn lemma_filter_members<A>(s: Seq<A>, keep: spec_fn(A) -> bool, a: A)
    ensures
        s.filter(keep).contains(a) <==> s.contains(a) && keep(a),
    decreases s.len(),
{
    reveal(Seq::filter);
    if s.len() > 0 {
        let rest = s.drop_last();
        lemma_filter_members(rest, keep, a);
        assert(s =~= rest.push(s.last()));
        lemma_push(rest, s.last());
        lemma_push(rest.filter(keep), s.last());
    }
}

impl TakhtiView {
    /// Whether a device of the TTY backend has an output on this scanout engine.
    pub open spec fn connected(self, node: DrmNode, crtc: u32) -> bool {
        self.tty is Some && self.tty->0.devices.contains_key(node.dev)
            && self.tty->0.devices[node.dev].surfaces.contains_key(crtc)
    }

    /// The output on a scanout engine.
    pub open spec fn output_at(self, node: DrmNode, crtc: u32) -> TtySurface {
        self.tty->0.devices[node.dev].surfaces[crtc]
    }

    /// Whether nothing is different here but for the outputs' redraw states and
    /// the pending callbacks.
    pub open spec fn differs_in_redraws(self, before: TakhtiView) -> bool {
        &&& self.tty is Some <==> before.tty is Some
        &&& self.displays == before.displays
        &&& self.input == before.input
        &&& self.outputs == before.outputs
        &&& self.explicit_sync == before.explicit_sync
        &&& self.tty matches Some(tty) ==> {
            let was = before.tty->0;
            &&& tty.primary_node == was.primary_node
            &&& tty.primary_render_node == was.primary_render_node
            &&& tty.dmabuf_global_created == was.dmabuf_global_created
            &&& tty.last_displays == was.last_displays
            &&& tty.last_input == was.last_input
            &&& tty.input_devices == was.input_devices
            &&& forall|dev: u64| #[trigger]
                tty.devices.contains_key(dev) <==> was.devices.contains_key(dev)
            &&& forall|dev: u64| #[trigger]
                tty.devices.contains_key(dev) ==> tty.devices[dev].render_node
                    == was.devices[dev].render_node && tty.devices[dev].token
                    == was.devices[dev].token
            &&& forall|node: DrmNode, crtc: u32| #[trigger]
                self.connected(node, crtc) <==> before.connected(node, crtc)
            &&& forall|node: DrmNode, crtc: u32| #[trigger]
                self.connected(node, crtc) ==> {
                    let now = self.output_at(node, crtc);
                    let then = before.output_at(node, crtc);
                    &&& now.output == then.output
                    &&& now.name == then.name
                    &&& now.connector == then.connector
                    &&& now.pending_mode == then.pending_mode
                    &&& now.global == then.global
                }
        }
    }

    /// Whether nothing is different here but for one output's redraw state and
    /// callback.
    pub open spec fn differs_in_redraw_of(self, before: TakhtiView, node: DrmNode, crtc: u32) -> bool {
        &&& self.differs_in_redraws(before)
        &&& forall|other: DrmNode, engine: u32| #[trigger]
            self.connected(other, engine) && (other.dev != node.dev || engine != crtc)
                ==> self.output_at(other, engine) == before.output_at(other, engine)
        &&& forall|key: SurfaceKey|
            self.tty is Some && (key.node.dev != node.dev || key.crtc != crtc) ==> (
            #[trigger] self.tty->0.callbacks.contains(key)
                <==> before.tty->0.callbacks.contains(key))
    }
}

/// What is looked up of an output is what its device holds.
pub proof fn outputs_are_looked_up_by_device(data: TtyData, key: SurfaceKey, found: bool, pending: bool)
    requires
        call_ensures(TtyData::contains, (&data, key), found),
        call_ensures(TtyData::is_pending, (&data, key), pending),
    ensures
        found <==> data.devices@.contains_key(key.node.dev)
            && data.devices@[key.node.dev].surfaces@.contains_key(key.crtc),
        pending <==> data.callbacks@.contains(key),
        forall|surface: Option<&TtySurface>| #[trigger]
            call_ensures(TtyData::get_surface, (&data, key), surface) ==> {
                &&& surface is Some <==> found
                &&& surface matches Some(surface) ==> *surface
                    == data.devices@[key.node.dev].surfaces@[key.crtc]
            },
{
}

/// Every connected output is named once, and nothing else is.
pub proof fn targets_name_every_output(data: TtyData, targets: Vec<SurfaceKey>, dev: u64, crtc: u32)
    requires
        call_ensures(TtyData::targets, (&data,), targets),
    ensures
        targets@.contains(SurfaceKey { node: DrmNode { dev }, crtc })
            <==> data.devices@.contains_key(dev) && data.devices@[dev].surfaces@.contains_key(crtc),
        targets@.no_duplicates(),
{
    let key = SurfaceKey { node: DrmNode { dev }, crtc };
    assert(targets@.to_set().contains(key) <==> data@.keys().contains(key));
    assert(targets@.to_set().contains(key) <==> targets@.contains(key));
}

/// An output goes by the entry under its name, and without one by the preferred
/// mode as it is.
pub proof fn outputs_go_by_the_entry_of_their_name(
    settings: Settings,
    name: String,
    resolution: Resolution,
)
    requires
        call_ensures(Settings::resolution_for, (&settings, &name), resolution),
    ensures
        settings.displays@.contains_key(name@) ==> resolution == settings.displays@[name@],
        !settings.displays@.contains_key(name@) ==> resolution.size is Preferred
            && resolution.refresh is Auto,
{
}

/// Putting one output in another redraw state leaves everything else.
pub(crate) proof fn lemma_state_differs(
    takhti: TakhtiView,
    key: SurfaceKey,
    state: RedrawState,
    callbacks: Set<SurfaceKey>,
)
    requires
        takhti.has(key),
    ensures
        ({
            let after = takhti.with_state(key, state).with_callbacks(callbacks);
            &&& after.differs_in_redraws(takhti)
            &&& after.connected(key.node, key.crtc)
            &&& after.output_at(key.node, key.crtc).redraw_state == state
            &&& forall|other: DrmNode, engine: u32| #[trigger]
                after.connected(other, engine) && (other.dev != key.node.dev || engine != key.crtc)
                    ==> after.output_at(other, engine) == takhti.output_at(other, engine)
        }),
{
    let after = takhti.with_state(key, state).with_callbacks(callbacks);
    assert forall|node: DrmNode, crtc: u32| #[trigger]
        after.connected(node, crtc) <==> takhti.connected(node, crtc) by {}
}

} // verus!
