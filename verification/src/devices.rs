//! GPUs that come and go.
//!
//! Every GPU on the seat is used. Rendering always happens on the primary one,
//! and frames for outputs on the others are copied across for scanout.

use std::collections::HashMap;

use vstd::prelude::*;

use calloop::RegistrationToken;

use crate::connectors::Disconnected;
use crate::node::{DrmNode, NodeType, PrimaryProbe};
use crate::space::MappedOutput;
use crate::state::{
    Backend, DeviceView, OutputDevice, SurfaceKey, Takhti, TakhtiView, TtyData, TtyView,
};

verus! {

broadcast use vstd::std_specs::hash::group_hash_axioms;

/// Starts the TTY backend on the GPU that was found. No device is there yet,
/// and the settings count as applied.
pub fn init(takhti: &mut Takhti, primary: PrimaryProbe)
    ensures
        final(takhti)@ == (TakhtiView {
            tty: Some(
                TtyView {
                    primary_node: primary.nodes().0,
                    primary_render_node: primary.nodes().1,
                    devices: Map::empty(),
                    dmabuf_global_created: false,
                    last_displays: old(takhti)@.displays,
                    last_input: old(takhti)@.input,
                    input_devices: Seq::empty(),
                    callbacks: Set::empty(),
                },
            ),
            ..old(takhti)@
        }),
{
    let (primary_node, primary_render_node) = primary.select();
    let data = TtyData {
        primary_node,
        primary_render_node,
        devices: HashMap::new(),
        dmabuf_global_created: false,
        last_displays: takhti.settings.displays.duplicate(),
        last_input: takhti.settings.input.duplicate(),
        input_devices: Vec::new(),
        callbacks: Vec::new(),
    };
    assert(data@.devices =~= Map::empty());
    assert(data@.callbacks =~= Set::empty());
    takhti.backend = Backend::Tty(data);
}

/// Tests whether no output is connected, which is a state to wait in until one
/// is plugged in.
pub fn waits_for_hotplug(takhti: &Takhti) -> (waits: bool)
    ensures
        waits == (takhti@.tty is Some && forall|key: SurfaceKey| !(#[trigger] takhti@.has(key))),
{
    match &takhti.backend {
        Backend::Tty(data) => {
            let targets = data.targets();
            proof {
                assert forall|key: SurfaceKey| #[trigger] takhti@.has(key) <==> targets@.contains(
                    key,
                ) by {
                    assert(targets@.to_set().contains(key) <==> data@.keys().contains(key));
                }
                if targets@.len() > 0 {
                    assert(targets@.contains(targets@[0]));
                    assert(takhti@.has(targets@[0]));
                } else {
                    assert forall|key: SurfaceKey| !(#[trigger] takhti@.has(key)) by {
                        assert(!targets@.contains(key));
                    }
                }
            }
            targets.len() == 0
        },
        Backend::Other => false,
    }
}

/// Whether a device that was found is to be used: it can set modes, and is not
/// there already.
pub open spec fn wanted(takhti: TakhtiView, node: DrmNode) -> bool {
    takhti.tty is Some && node.is_primary() && !takhti.tty->0.devices.contains_key(node.dev)
}

/// Tests whether a device that was found is to be opened. Nodes without mode
/// setting are passed over, and so is a device that is there already.
pub fn device_added(takhti: &Takhti, node: DrmNode) -> (open: bool)
    ensures
        open == wanted(takhti@, node),
{
    let primary: bool = match node.ty() {
        Some(NodeType::Primary) => true,
        _ => false,
    };
    if !primary {
        return false;
    }
    match &takhti.backend {
        Backend::Tty(data) => !data.devices.contains_key(&node.dev),
        Backend::Other => false,
    }
}

/// What was found out about rendering on a device.
#[derive(Clone, Copy, Debug, PartialEq, Eq, Structural)]
pub enum RendererProbe {
    /// The device cannot be probed.
    Unavailable,
    /// Rendering would happen in software.
    Software,
    /// The device renders, on its render node where it has one.
    Hardware { render_node: Option<DrmNode> },
}

/// The node to render on, if the device is to render at all.
pub open spec fn render_candidate_of(node: DrmNode, probe: RendererProbe) -> Option<DrmNode> {
    match probe {
        RendererProbe::Hardware { render_node: Some(render_node) } => Some(render_node),
        RendererProbe::Hardware { render_node: None } => Some(node),
        _ => None,
    }
}

/// The node to bring up a renderer on. Display-only devices and software
/// renderers have none, and scan out the primary GPU's frames.
pub fn render_candidate(node: DrmNode, probe: RendererProbe) -> (candidate: Option<DrmNode>)
    ensures
        candidate == render_candidate_of(node, probe),
{
    match probe {
        RendererProbe::Hardware { render_node } => match render_node {
            Some(render_node) => Some(render_node),
            None => Some(node),
        },
        RendererProbe::Unavailable | RendererProbe::Software => None,
    }
}

/// Whether a device that comes up to render on this node is the primary GPU,
/// coming up without the dmabuf global.
pub open spec fn brings_up_primary(takhti: TakhtiView, render_node: Option<DrmNode>) -> bool {
    &&& takhti.tty matches Some(tty)
    &&& render_node == Some(tty.primary_render_node)
    &&& !tty.dmabuf_global_created
}

/// Tests whether the dmabuf global and explicit synchronisation are to be set
/// up: the primary GPU is coming up, and the global is not there yet.
pub fn primary_comes_up(takhti: &Takhti, render_node: Option<DrmNode>) -> (up: bool)
    ensures
        up == brings_up_primary(takhti@, render_node),
{
    match &takhti.backend {
        Backend::Tty(data) => match render_node {
            Some(render_node) => render_node == data.primary_render_node
                && !data.dmabuf_global_created,
            None => false,
        },
        Backend::Other => false,
    }
}

/// The compositor with the primary GPU up.
pub open spec fn with_primary_up(
    takhti: TakhtiView,
    global_created: bool,
    explicit_sync: bool,
) -> TakhtiView {
    TakhtiView {
        tty: Some(TtyView { dmabuf_global_created: global_created, ..takhti.tty->0 }),
        explicit_sync: explicit_sync || takhti.explicit_sync,
        ..takhti
    }
}

/// Takes in what came of setting up the dmabuf global, and whether the primary
/// GPU can do explicit synchronisation. The one does not depend on the other.
pub fn primary_came_up(
    takhti: &mut Takhti,
    render_node: Option<DrmNode>,
    global_created: bool,
    explicit_sync: bool,
)
    ensures
        final(takhti)@ == if brings_up_primary(old(takhti)@, render_node) {
            with_primary_up(old(takhti)@, global_created, explicit_sync)
        } else {
            old(takhti)@
        },
{
    if primary_comes_up(takhti, render_node) {
        match &mut takhti.backend {
            Backend::Tty(data) => {
                data.dmabuf_global_created = global_created;
                if explicit_sync {
                    takhti.explicit_sync = true;
                }
            },
            Backend::Other => {},
        }
    }
}

/// The device whose memory the scanout buffers of a device come from; none
/// where that would have to be the primary GPU and it is not there.
pub open spec fn allocator_of(
    tty: TtyView,
    node: DrmNode,
    render_node: Option<DrmNode>,
) -> Option<DrmNode> {
    if render_node is Some {
        Some(node)
    } else if tty.devices.contains_key(tty.primary_node.dev) {
        Some(tty.primary_node)
    } else {
        None
    }
}

/// Why a device cannot be used.
#[derive(Clone, Copy, Debug, PartialEq, Eq, Structural)]
pub enum DeviceError {
    /// Another backend drives the outputs.
    NotActive,
    /// The device is display-only, and the primary GPU is not there.
    NoAllocator,
}

/// The device to allocate scanout buffers from: the device itself if it can
/// render, and the primary GPU if it is display-only.
pub fn allocator_for(takhti: &Takhti, node: DrmNode, render_node: Option<DrmNode>) -> (allocator:
    Result<DrmNode, DeviceError>)
    ensures
        allocator == match takhti@.tty {
            Some(tty) => match allocator_of(tty, node, render_node) {
                Some(allocator) => Ok::<DrmNode, DeviceError>(allocator),
                None => Err(DeviceError::NoAllocator),
            },
            None => Err(DeviceError::NotActive),
        },
{
    match &takhti.backend {
        Backend::Tty(data) => {
            if render_node.is_some() {
                Ok(node)
            } else if data.devices.contains_key(&data.primary_node.dev) {
                Ok(data.primary_node)
            } else {
                Err(DeviceError::NoAllocator)
            }
        },
        Backend::Other => Err(DeviceError::NotActive),
    }
}

/// The backend with one more device, which has no outputs yet.
pub open spec fn with_device(
    tty: TtyView,
    node: DrmNode,
    render_node: Option<DrmNode>,
    token: RegistrationToken,
) -> TtyView {
    TtyView {
        devices: tty.devices.insert(
            node.dev,
            DeviceView { render_node, token, surfaces: Map::empty() },
        ),
        ..tty
    }
}

/// Takes in that a device is set up, with its event source registered. Its
/// connectors are to be scanned next. The result says whether it could be
/// taken in.
pub fn device_ready(
    takhti: &mut Takhti,
    node: DrmNode,
    render_node: Option<DrmNode>,
    token: RegistrationToken,
) -> (ready: bool)
    ensures
        ready == (old(takhti)@.tty is Some),
        final(takhti)@ == match old(takhti)@.tty {
            Some(tty) => TakhtiView {
                tty: Some(with_device(tty, node, render_node, token)),
                ..old(takhti)@
            },
            None => old(takhti)@,
        },
{
    match &mut takhti.backend {
        Backend::Tty(data) => {
            let ghost before = data@;
            let device = OutputDevice { render_node, token, surfaces: HashMap::new() };
            assert(device@.surfaces =~= Map::empty());
            data.devices.insert(node.dev, device);
            assert(data@.devices =~= with_device(before, node, render_node, token).devices);
            true
        },
        Backend::Other => false,
    }
}

/// What came of importing a client's buffer on the primary GPU, the one that
/// composites.
#[derive(Clone, Copy, Debug, PartialEq, Eq, Structural)]
pub enum ImportOutcome {
    /// There was no renderer to be had.
    NoRenderer,
    /// The renderer refused the buffer.
    Refused,
    /// The renderer took the buffer.
    Imported,
}

/// Answers a client that asks for a buffer to be imported. The result is the
/// node to tag the buffer with; none means that the buffer is refused.
pub fn import_dmabuf(data: &TtyData, outcome: ImportOutcome) -> (tag: Option<DrmNode>)
    ensures
        tag == if outcome == ImportOutcome::Imported {
            Some(data@.primary_render_node)
        } else {
            None
        },
{
    match outcome {
        ImportOutcome::Imported => Some(data.primary_render_node),
        ImportOutcome::NoRenderer | ImportOutcome::Refused => None,
    }
}

/// A device that was removed.
#[derive(Debug)]
pub struct RemovedDevice {
    /// The outputs that went with it.
    pub outputs: Vec<Disconnected>,
    /// The event source to remove.
    pub token: RegistrationToken,
    /// The renderer to drop.
    pub render_node: Option<DrmNode>,
    /// Whether outputs went with it: the outputs hook is to run then, and
    /// every output to be repainted.
    pub changed: bool,
}

/// The identities of the outputs of a device.
pub open spec fn identities(device: DeviceView) -> Set<u64> {
    Set::new(
        |id: u64|
            exists|crtc: u32| #[trigger]
                device.surfaces.contains_key(crtc) && device.surfaces[crtc].output == id,
    )
}

/// Which outputs have none of these identities.
pub open spec fn besides(ids: Set<u64>) -> spec_fn(MappedOutput) -> bool {
    |mapped: MappedOutput| !ids.contains(mapped.output.id)
}

/// The outputs that stay when a device is removed.
pub open spec fn outputs_besides(outputs: Seq<MappedOutput>, device: DeviceView) -> Seq<
    MappedOutput,
> {
    outputs.filter(besides(identities(device)))
}

/// The compositor without a device.
pub open spec fn with_removed(takhti: TakhtiView, node: DrmNode) -> TakhtiView {
    let tty = takhti.tty->0;
    let device = tty.devices[node.dev];
    let staying = outputs_besides(takhti.outputs, device);
    TakhtiView {
        tty: Some(TtyView { devices: tty.devices.remove(node.dev), ..tty }),
        outputs: if device.surfaces.dom().is_empty() {
            staying
        } else {
            crate::space::packed(staying)
        },
        ..takhti
    }
}

/// Whether these are what is left of the outputs of a device, each one once.
pub open spec fn remains_of(device: DeviceView, outputs: Seq<Disconnected>) -> bool {
    exists|crtcs: Seq<u32>|
        #![trigger crtcs.no_duplicates()]
        crtcs.no_duplicates() && crtcs.to_set() == device.surfaces.dom() && outputs
            == crtcs.map_values(|crtc: u32| device.surfaces[crtc].remains())
}

/// The identities of some outputs of a device.
spec fn identities_at(device: DeviceView, crtcs: Seq<u32>) -> Set<u64> {
    Set::new(
        |id: u64|
            exists|j: int|
                0 <= j < crtcs.len() && device.surfaces[#[trigger] crtcs[j]].output == id,
    )
}

/// The compositor without some outputs of a device.
spec fn without_outputs(takhti: TakhtiView, node: DrmNode, crtcs: Seq<u32>) -> TakhtiView {
    let tty = takhti.tty->0;
    let device = tty.devices[node.dev];
    TakhtiView {
        tty: Some(
            TtyView {
                devices: tty.devices.insert(
                    node.dev,
                    DeviceView {
                        surfaces: device.surfaces.remove_keys(crtcs.to_set()),
                        ..device
                    },
                ),
                ..tty
            },
        ),
        outputs: takhti.outputs.filter(besides(identities_at(device, crtcs))),
        ..takhti
    }
}

/// Filtering twice is filtering by both conditions.
proof fn lemma_filter_twice<A>(
    s: Seq<A>,
    p: spec_fn(A) -> bool,
    q: spec_fn(A) -> bool,
    r: spec_fn(A) -> bool,
)
    requires
        forall|a: A| #[trigger] r(a) <==> p(a) && q(a),
    ensures
        s.filter(p).filter(q) == s.filter(r),
    decreases s.len(),
{
    reveal(Seq::filter);
    if s.len() > 0 {
        let rest = s.drop_last();
        let last = s.last();
        lemma_filter_twice(rest, p, q, r);
        assert(r(last) <==> p(last) && q(last));
        if p(last) {
            assert(rest.filter(p).push(last).drop_last() =~= rest.filter(p));
        }
    }
}

/// Filtering by what always holds changes nothing.
proof fn lemma_filter_all<A>(s: Seq<A>, p: spec_fn(A) -> bool)
    requires
        forall|a: A| #[trigger] p(a),
    ensures
        s.filter(p) == s,
    decreases s.len(),
{
    reveal(Seq::filter);
    if s.len() > 0 {
        lemma_filter_all(s.drop_last(), p);
        assert(p(s.last()));
        assert(s.drop_last().push(s.last()) =~= s);
    } else {
        assert(s.filter(p) =~= s);
    }
}

/// One more output of a device gone.
proof fn lemma_without_outputs_step(takhti: TakhtiView, node: DrmNode, crtcs: Seq<u32>, i: int)
    requires
        takhti.tty is Some,
        takhti.tty->0.devices.contains_key(node.dev),
        crtcs.no_duplicates(),
        crtcs.to_set() == takhti.tty->0.devices[node.dev].surfaces.dom(),
        0 <= i < crtcs.len(),
    ensures
        ({
            let now = without_outputs(takhti, node, crtcs.take(i));
            let key = SurfaceKey { node, crtc: crtcs[i] };
            &&& now.has(key)
            &&& now.surface(key) == takhti.surface(key)
            &&& crate::connectors::with_disconnected(now, key) == without_outputs(
                takhti,
                node,
                crtcs.take(i + 1),
            )
        }),
{
    let device = takhti.tty->0.devices[node.dev];
    let now = without_outputs(takhti, node, crtcs.take(i));
    let next = without_outputs(takhti, node, crtcs.take(i + 1));
    let key = SurfaceKey { node, crtc: crtcs[i] };
    let id = device.surfaces[crtcs[i]].output;
    crate::state::lemma_prefix_set(crtcs, i);
    assert(crtcs.to_set().contains(crtcs[i]));
    let gone = crate::connectors::with_disconnected(now, key);
    assert(gone.tty->0.devices[node.dev].surfaces =~= next.tty->0.devices[node.dev].surfaces);
    assert(gone.tty->0.devices =~= next.tty->0.devices);
    let before = identities_at(device, crtcs.take(i));
    let after = identities_at(device, crtcs.take(i + 1));
    assert forall|other: u64| #[trigger] after.contains(other) <==> before.contains(other) || other
        == id by {
        if before.contains(other) {
            let j = choose|j: int|
                0 <= j < i && device.surfaces[#[trigger] crtcs.take(i)[j]].output == other;
            assert(device.surfaces[crtcs.take(i + 1)[j]].output == other);
        }
        if other == id {
            assert(device.surfaces[crtcs.take(i + 1)[i]].output == other);
        }
        if after.contains(other) {
            let j = choose|j: int|
                0 <= j <= i && device.surfaces[#[trigger] crtcs.take(i + 1)[j]].output == other;
            if j < i {
                assert(device.surfaces[crtcs.take(i)[j]].output == other);
            }
        }
    }
    lemma_filter_twice(
        takhti.outputs,
        besides(before),
        |mapped: MappedOutput| mapped.output.id != id,
        besides(after),
    );
}

/// The identities of all outputs of a device.
proof fn lemma_identities(device: DeviceView, crtcs: Seq<u32>)
    requires
        crtcs.to_set() == device.surfaces.dom(),
    ensures
        identities_at(device, crtcs) == identities(device),
{
    let ids = identities_at(device, crtcs);
    assert forall|id: u64| ids.contains(id) <==> identities(device).contains(id) by {
        if ids.contains(id) {
            let j = choose|j: int|
                0 <= j < crtcs.len() && device.surfaces[#[trigger] crtcs[j]].output == id;
            assert(crtcs.to_set().contains(crtcs[j]));
            assert(device.surfaces.contains_key(crtcs[j]));
        }
        if identities(device).contains(id) {
            let crtc = choose|crtc: u32| #[trigger]
                device.surfaces.contains_key(crtc) && device.surfaces[crtc].output == id;
            assert(crtcs.to_set().contains(crtc));
            let j = choose|j: int| 0 <= j < crtcs.len() && crtcs[j] == crtc;
            assert(device.surfaces[crtcs[j]].output == id);
        }
    }
    assert(ids =~= identities(device));
}

/// Takes out a device that was removed, with its outputs. Where outputs went
/// with it, the others are packed again.
pub fn device_removed(takhti: &mut Takhti, node: DrmNode) -> (removed: Option<RemovedDevice>)
    requires
        old(takhti)@.tty matches Some(tty) && tty.devices.contains_key(node.dev)
            && !tty.devices[node.dev].surfaces.dom().is_empty() ==> crate::space::packable(
            outputs_besides(old(takhti)@.outputs, old(takhti)@.tty->0.devices[node.dev]),
        ),
    ensures
        ({
            let tty = old(takhti)@.tty;
            if tty is Some && tty->0.devices.contains_key(node.dev) {
                let device = tty->0.devices[node.dev];
                &&& final(takhti)@ == with_removed(old(takhti)@, node)
                &&& removed matches Some(removed)
                &&& removed.token == device.token
                &&& removed.render_node == device.render_node
                &&& removed.changed == !device.surfaces.dom().is_empty()
                &&& remains_of(device, removed.outputs@)
            } else {
                &&& final(takhti)@ == old(takhti)@
                &&& removed is None
            }
        }),
{
    let ghost before = takhti@;
    let crtcs: Vec<u32> = match &takhti.backend {
        Backend::Tty(data) => match data.devices.get(&node.dev) {
            Some(device) => crate::state::engines(device),
            None => return None,
        },
        Backend::Other => return None,
    };
    let ghost device = before.tty->0.devices[node.dev];
    let changed: bool = crtcs.len() > 0;
    let mut outputs: Vec<Disconnected> = Vec::new();
    let mut i: usize = 0;
    proof {
        let start = without_outputs(before, node, crtcs@.take(0));
        assert(crtcs@.take(0).to_set() =~= Set::empty());
        assert(start.tty->0.devices[node.dev].surfaces =~= device.surfaces);
        assert(start.tty->0.devices =~= before.tty->0.devices);
        lemma_filter_all(before.outputs, besides(identities_at(device, crtcs@.take(0))));
    }
    while i < crtcs.len()
        invariant
            i <= crtcs@.len(),
            before.tty is Some,
            before.tty->0.devices.contains_key(node.dev),
            device == before.tty->0.devices[node.dev],
            crtcs@.no_duplicates(),
            crtcs@.to_set() == device.surfaces.dom(),
            takhti@ == without_outputs(before, node, crtcs@.take(i as int)),
            outputs@ == crtcs@.take(i as int).map_values(
                |crtc: u32| device.surfaces[crtc].remains(),
            ),
        decreases crtcs@.len() - i,
    {
        let crtc: u32 = crtcs[i];
        proof {
            lemma_without_outputs_step(before, node, crtcs@, i as int);
            assert(crtcs@.take(i + 1) =~= crtcs@.take(i as int).push(crtc));
        }
        match crate::connectors::connector_disconnected(takhti, node, crtc) {
            Some(gone) => {
                let ghost listed = outputs@;
                outputs.push(gone);
                assert(outputs@ =~= crtcs@.take(i + 1).map_values(
                    |crtc: u32| device.surfaces[crtc].remains(),
                ));
            },
            None => {},
        }
        i += 1;
    }
    proof {
        assert(crtcs@.take(i as int) =~= crtcs@);
        lemma_identities(device, crtcs@);
        if crtcs@.len() > 0 {
            assert(crtcs@.to_set().contains(crtcs@[0]));
        } else {
            assert(crtcs@.to_set() =~= Set::empty());
        }
    }
    let gone: Option<OutputDevice> = match &mut takhti.backend {
        Backend::Tty(data) => {
            let ghost was = data@;
            let gone = data.devices.remove(&node.dev);
            assert(data@.devices =~= was.devices.remove(node.dev));
            assert(was.devices.contains_key(node.dev));
            assert(gone is Some && gone->0@ == was.devices[node.dev]);
            gone
        },
        Backend::Other => None,
    };
    assert(takhti@.tty->0.devices =~= before.tty->0.devices.remove(node.dev));
    assert(takhti@ == (TakhtiView {
        tty: Some(
            TtyView { devices: before.tty->0.devices.remove(node.dev), ..before.tty->0 },
        ),
        outputs: outputs_besides(before.outputs, device),
        ..before
    }));
    assert(remains_of(device, outputs@));
    match gone {
        Some(gone) => {
            if changed {
                takhti.space.reposition_outputs();
            }
            Some(
                RemovedDevice {
                    outputs,
                    token: gone.token,
                    render_node: gone.render_node,
                    changed,
                },
            )
        },
        None => None,
    }
}

/// Tests whether the outputs that stay when a device is removed, side by side,
/// stay within 32 bits.
pub fn removal_in_range(takhti: &Takhti, node: DrmNode) -> (fine: bool)
    ensures
        fine == match takhti@.tty {
            Some(tty) => tty.devices.contains_key(node.dev)
                && !tty.devices[node.dev].surfaces.dom().is_empty() ==> crate::space::packable(
                outputs_besides(takhti@.outputs, tty.devices[node.dev]),
            ),
            None => true,
        },
{
    match &takhti.backend {
        Backend::Tty(data) => match data.devices.get(&node.dev) {
            Some(device) => {
                let crtcs = crate::state::engines(device);
                if crtcs.len() == 0 {
                    assert(crtcs@.to_set() =~= Set::empty());
                    return true;
                }
                assert(crtcs@.to_set().contains(crtcs@[0]));
                let mut space = takhti.space.duplicate();
                let mut i: usize = 0;
                proof {
                    lemma_filter_all(
                        takhti@.outputs,
                        besides(identities_at(device@, crtcs@.take(0))),
                    );
                }
                while i < crtcs.len()
                    invariant
                        i <= crtcs@.len(),
                        takhti@.tty is Some,
                        takhti@.tty->0.devices.contains_key(node.dev),
                        device@ == takhti@.tty->0.devices[node.dev],
                        crtcs@.no_duplicates(),
                        crtcs@.to_set() == device@.surfaces.dom(),
                        space.outputs@ == takhti@.outputs.filter(
                            besides(identities_at(device@, crtcs@.take(i as int))),
                        ),
                    decreases crtcs@.len() - i,
                {
                    let crtc: u32 = crtcs[i];
                    proof {
                        lemma_without_outputs_step(takhti@, node, crtcs@, i as int);
                    }
                    match device.surfaces.get(&crtc) {
                        Some(surface) => {
                            space.unmap_output(surface.output);
                        },
                        None => {},
                    }
                    i += 1;
                }
                proof {
                    assert(crtcs@.take(i as int) =~= crtcs@);
                    lemma_identities(device@, crtcs@);
                }
                space.row_in_range()
            },
            None => true,
        },
        Backend::Other => true,
    }
}

/// A display-only device that comes up once the primary GPU is there allocates
/// its scanout buffers from it.
pub proof fn display_only_devices_borrow_from_the_primary(
    tty: TtyView,
    primary_renders_on: Option<DrmNode>,
    token: RegistrationToken,
    node: DrmNode,
)
    ensures
        allocator_of(
            with_device(tty, tty.primary_node, primary_renders_on, token),
            node,
            None,
        ) == Some(tty.primary_node),
{
}

/// The backend starts on the GPU that was selected, with no device and nothing
/// pending, and counts the settings in force as applied. It touches nothing
/// else.
pub proof fn the_backend_starts_empty(takhti: &mut Takhti, primary: PrimaryProbe, nodes: (DrmNode, DrmNode))
    requires
        call_ensures(init, (takhti, primary), ()),
        call_ensures(PrimaryProbe::select, (&primary,), nodes),
    ensures
        ({
            let was = old(takhti)@;
            let now = final(takhti)@;
            &&& now.tty matches Some(tty)
            &&& tty.primary_node == nodes.0
            &&& tty.primary_render_node == nodes.1
            &&& forall|dev: u64| !(#[trigger] tty.devices.contains_key(dev))
            &&& forall|key: SurfaceKey| !(#[trigger] tty.callbacks.contains(key))
            &&& tty.input_devices.len() == 0
            &&& !tty.dmabuf_global_created
            &&& tty.last_displays == was.displays
            &&& tty.last_input == was.input
            &&& now.displays == was.displays
            &&& now.input == was.input
            &&& now.outputs == was.outputs
            &&& now.explicit_sync == was.explicit_sync
        }),
{
}

/// The backend waits for a hotplug exactly while no device has an output.
pub proof fn waiting_means_no_output(takhti: Takhti, waits: bool)
    requires
        call_ensures(waits_for_hotplug, (&takhti,), waits),
    ensures
        waits <==> takhti.backend is Tty && forall|node: DrmNode, crtc: u32|
            !(#[trigger] takhti@.connected(node, crtc)),
{
    if waits {
        assert forall|node: DrmNode, crtc: u32| !(#[trigger] takhti@.connected(node, crtc)) by {
            assert(!takhti@.has(SurfaceKey { node, crtc }));
        }
    }
    if takhti.backend is Tty && forall|node: DrmNode, crtc: u32|
        !(#[trigger] takhti@.connected(node, crtc)) {
        assert forall|key: SurfaceKey| !(#[trigger] takhti@.has(key)) by {
            assert(!takhti@.connected(key.node, key.crtc));
        }
    }
}

/// A device is opened exactly if its node sets modes and it is not there yet.
pub proof fn new_mode_setting_devices_are_opened(
    takhti: Takhti,
    node: DrmNode,
    open: bool,
    ty: Option<NodeType>,
)
    requires
        call_ensures(device_added, (&takhti, node), open),
        call_ensures(DrmNode::ty, (&node,), ty),
    ensures
        open <==> ty == Some(NodeType::Primary) && (takhti.backend matches Backend::Tty(data)
            && !data.devices@.contains_key(node.dev)),
{
}

/// A device renders on its render node where it has one and else on its own
/// node, and not at all in software or where that cannot be told.
pub proof fn hardware_renders_on_its_render_node(
    node: DrmNode,
    probe: RendererProbe,
    candidate: Option<DrmNode>,
)
    requires
        call_ensures(render_candidate, (node, probe), candidate),
    ensures
        candidate is Some <==> probe is Hardware,
        probe matches RendererProbe::Hardware { render_node } ==> (render_node is Some
            ==> candidate == render_node) && (render_node is None ==> candidate == Some(node)),
{
}

/// The primary GPU is set up exactly when a device comes up that renders on the
/// primary's node, while there is no dmabuf global. What is taken in then is
/// whether there is a global now, and that clients can use explicit
/// synchronisation if they can; what they could use before they still can.
pub proof fn the_primary_is_set_up_until_there_is_a_global(
    takhti: &mut Takhti,
    render_node: Option<DrmNode>,
    global_created: bool,
    explicit_sync: bool,
    up: bool,
)
    requires
        call_ensures(primary_came_up, (takhti, render_node, global_created, explicit_sync), ()),
        call_ensures(primary_comes_up, (&*old(takhti), render_node), up),
    ensures
        up <==> (old(takhti)@.tty matches Some(tty) && render_node == Some(tty.primary_render_node)
            && !tty.dmabuf_global_created),
        !up ==> final(takhti)@ == old(takhti)@,
        up ==> {
            let was = old(takhti)@;
            let now = final(takhti)@;
            &&& now.tty matches Some(tty)
            &&& tty.dmabuf_global_created == global_created
            &&& tty == (TtyView { dmabuf_global_created: global_created, ..was.tty->0 })
            &&& now.explicit_sync <==> explicit_sync || was.explicit_sync
            &&& now.outputs == was.outputs
            &&& now.displays == was.displays
            &&& now.input == was.input
        },
{
}

/// Scanout buffers come from the device itself where it renders. A display-only
/// device takes them from the primary GPU, and fails where that is not there.
pub proof fn buffers_come_from_what_renders(
    takhti: Takhti,
    node: DrmNode,
    render_node: Option<DrmNode>,
    allocator: Result<DrmNode, DeviceError>,
)
    requires
        call_ensures(allocator_for, (&takhti, node, render_node), allocator),
    ensures
        takhti.backend is Other ==> allocator == Err::<DrmNode, DeviceError>(
            DeviceError::NotActive,
        ),
        takhti.backend is Tty && render_node is Some ==> allocator == Ok::<DrmNode, DeviceError>(node),
        takhti.backend matches Backend::Tty(data) ==> render_node is None ==> {
            let there = data.devices@.contains_key(data.primary_node.dev);
            &&& there ==> allocator == Ok::<DrmNode, DeviceError>(data.primary_node)
            &&& !there ==> allocator == Err::<DrmNode, DeviceError>(DeviceError::NoAllocator)
        },
{
}

/// A device that is set up is there from then on, without outputs, under its
/// event source and its render node. The other devices are as they were.
pub proof fn a_ready_device_is_there(
    takhti: &mut Takhti,
    node: DrmNode,
    render_node: Option<DrmNode>,
    token: RegistrationToken,
    ready: bool,
    other: u64,
)
    requires
        call_ensures(device_ready, (takhti, node, render_node, token), ready),
    ensures
        ready <==> old(takhti)@.tty is Some,
        !ready ==> final(takhti)@ == old(takhti)@,
        ready ==> {
            let was = old(takhti)@;
            let now = final(takhti)@;
            &&& now.tty matches Some(tty)
            &&& tty.devices.contains_key(node.dev)
            &&& tty.devices[node.dev].render_node == render_node
            &&& tty.devices[node.dev].token == token
            &&& forall|crtc: u32| !(#[trigger] now.connected(node, crtc))
            &&& other != node.dev ==> (tty.devices.contains_key(other)
                <==> was.tty->0.devices.contains_key(other)) && (tty.devices.contains_key(other)
                ==> tty.devices[other] == was.tty->0.devices[other])
            &&& now == (TakhtiView {
                tty: Some(TtyView { devices: tty.devices, ..was.tty->0 }),
                ..was
            })
        },
{
}

/// A buffer that the primary GPU took is tagged with the node that it renders
/// on, and any other is refused.
pub proof fn taken_buffers_are_tagged(data: TtyData, outcome: ImportOutcome, tag: Option<DrmNode>)
    requires
        call_ensures(import_dmabuf, (&data, outcome), tag),
    ensures
        tag is Some <==> outcome is Imported,
        tag matches Some(node) ==> node == data.primary_render_node,
{
}

/// Removing a device takes it and all its outputs, and nothing else: the other
/// outputs stay in their order, and form a row again if any went. It hands back
/// the device's event source and renderer, and for each of its outputs, once,
/// what unplugging it would.
pub proof fn a_removed_device_takes_what_it_had(
    takhti: &mut Takhti,
    node: DrmNode,
    removed: RemovedDevice,
    mapped: MappedOutput,
    other: u64,
    fine: bool,
)
    requires
        call_ensures(device_removed, (takhti, node), Some(removed)),
        call_ensures(removal_in_range, (&*old(takhti), node), fine),
        fine,
    ensures
        ({
            let was = old(takhti)@;
            let now = final(takhti)@;
            let device = was.tty->0.devices[node.dev];
            let its_own = exists|crtc: u32| #[trigger]
                was.connected(node, crtc) && was.output_at(node, crtc).output == mapped.output.id;
            &&& was.tty is Some && was.tty->0.devices.contains_key(node.dev)
            &&& removed.token == device.token
            &&& removed.render_node == device.render_node
            &&& removed.changed <==> exists|crtc: u32| #[trigger] was.connected(node, crtc)
            &&& now.tty matches Some(tty)
            &&& tty.devices.contains_key(other) <==> was.tty->0.devices.contains_key(other) && other
                != node.dev
            &&& tty.devices.contains_key(other) ==> tty.devices[other] == was.tty->0.devices[other]
            &&& now == (TakhtiView {
                tty: Some(TtyView { devices: tty.devices, ..was.tty->0 }),
                outputs: now.outputs,
                ..was
            })
            &&& !removed.changed ==> now.outputs == was.outputs
            &&& removed.changed ==> crate::space::in_a_row(now.outputs)
            &&& exists|kept: Seq<MappedOutput>| #[trigger]
                crate::space::subsequence(kept, was.outputs) && crate::space::same_but_for_places(
                    now.outputs,
                    kept,
                )
            &&& (exists|i: int|
                0 <= i < now.outputs.len() && (#[trigger] now.outputs[i]).output == mapped.output)
                <==> !its_own && exists|i: int|
                0 <= i < was.outputs.len() && (#[trigger] was.outputs[i]).output == mapped.output
        }),
{
    let was = old(takhti)@;
    let now = final(takhti)@;
    let device = was.tty->0.devices[node.dev];
    let ids = identities(device);
    let staying = outputs_besides(was.outputs, device);
    let id = mapped.output.id;
    let its_own = exists|crtc: u32| #[trigger]
        was.connected(node, crtc) && was.output_at(node, crtc).output == id;
    if its_own {
        let crtc = choose|crtc: u32| #[trigger]
            was.connected(node, crtc) && was.output_at(node, crtc).output == id;
        assert(device.surfaces.contains_key(crtc));
        assert(ids.contains(id));
    }
    if ids.contains(id) {
        let crtc = choose|crtc: u32| #[trigger]
            device.surfaces.contains_key(crtc) && device.surfaces[crtc].output == id;
        assert(was.connected(node, crtc) && was.output_at(node, crtc).output == id);
    }
    crate::space::lemma_filter_in_order(was.outputs, besides(ids));
    assert(crate::space::subsequence(staying, was.outputs));
    let empty = device.surfaces.dom().is_empty();
    if !empty {
        let crtc = device.surfaces.dom().choose();
        assert(device.surfaces.contains_key(crtc));
        assert(was.connected(node, crtc));
        crate::space::lemma_packed_in_a_row(staying);
    } else {
        assert forall|crtc: u32| !(#[trigger] was.connected(node, crtc)) by {
            assert(!device.surfaces.dom().contains(crtc));
        }
        assert forall|m: MappedOutput| #[trigger] besides(ids)(m) by {
            if ids.contains(m.output.id) {
                let crtc = choose|crtc: u32| #[trigger]
                    device.surfaces.contains_key(crtc) && device.surfaces[crtc].output
                        == m.output.id;
                assert(was.connected(node, crtc));
            }
        }
        lemma_filter_all(was.outputs, besides(ids));
    }
    if exists|i: int| 0 <= i < now.outputs.len() && (#[trigger] now.outputs[i]).output
        == mapped.output {
        let i = choose|i: int|
            0 <= i < now.outputs.len() && (#[trigger] now.outputs[i]).output == mapped.output;
        let m = staying[i];
        assert(m.output == mapped.output);
        assert(staying.contains(m));
        crate::state::lemma_filter_members(was.outputs, besides(ids), m);
        let j = choose|j: int| 0 <= j < was.outputs.len() && was.outputs[j] == m;
        assert(was.outputs[j].output == mapped.output);
        assert(besides(ids)(m));
    }
    if !its_own && exists|i: int|
        0 <= i < was.outputs.len() && (#[trigger] was.outputs[i]).output == mapped.output {
        let i = choose|i: int|
            0 <= i < was.outputs.len() && (#[trigger] was.outputs[i]).output == mapped.output;
        let m = was.outputs[i];
        assert(was.outputs.contains(m));
        crate::state::lemma_filter_members(was.outputs, besides(ids), m);
        assert(besides(ids)(m));
        let j = choose|j: int| 0 <= j < staying.len() && staying[j] == m;
        assert(now.outputs[j].output == mapped.output);
    }
}

/// What is handed back of a removed device's outputs is, for each of them once,
/// what unplugging it would hand back.
pub proof fn a_removed_device_hands_back_its_outputs(
    takhti: &mut Takhti,
    node: DrmNode,
    removed: RemovedDevice,
    crtc: u32,
    one: &mut Takhti,
    gone: Disconnected,
)
    requires
        call_ensures(device_removed, (takhti, node), Some(removed)),
        call_ensures(crate::connectors::connector_disconnected, (one, node, crtc), Some(gone)),
        old(one)@ == old(takhti)@,
    ensures
        exists|i: int| 0 <= i < removed.outputs@.len() && #[trigger] removed.outputs@[i] == gone,
        removed.outputs@.len() == old(takhti)@.tty->0.devices[node.dev].surfaces.dom().len(),
{
    let device = old(takhti)@.tty->0.devices[node.dev];
    let crtcs = choose|crtcs: Seq<u32>|
        #![trigger crtcs.no_duplicates()]
        crtcs.no_duplicates() && crtcs.to_set() == device.surfaces.dom() && removed.outputs@
            == crtcs.map_values(|crtc: u32| device.surfaces[crtc].remains());
    assert(device.surfaces.dom().contains(crtc));
    assert(crtcs.to_set().contains(crtc));
    let i = choose|i: int| 0 <= i < crtcs.len() && crtcs[i] == crtc;
    assert(removed.outputs@[i] == device.surfaces[crtc].remains());
    crtcs.unique_seq_to_set();
}

/// A device that is not there cannot be removed, and without the TTY backend
/// none can.
pub proof fn absent_devices_are_not_removed(
    takhti: &mut Takhti,
    node: DrmNode,
    removed: Option<RemovedDevice>,
)
    requires
        call_ensures(device_removed, (takhti, node), removed),
    ensures
        removed is Some <==> old(takhti)@.tty is Some && old(takhti)@.tty->0.devices.contains_key(
            node.dev,
        ),
        removed is None ==> final(takhti)@ == old(takhti)@,
{
}

/// Whether a device can be removed is a question only where outputs go with it
/// and others stay: it always can where it has none.
pub proof fn devices_without_outputs_can_be_removed(takhti: Takhti, node: DrmNode, fine: bool)
    requires
        call_ensures(removal_in_range, (&takhti, node), fine),
        forall|crtc: u32| !(#[trigger] takhti@.connected(node, crtc)),
    ensures
        fine,
{
    if takhti@.tty is Some && takhti@.tty->0.devices.contains_key(node.dev) {
        let device = takhti@.tty->0.devices[node.dev];
        assert forall|crtc: u32| !device.surfaces.dom().contains(crtc) by {
            assert(!takhti@.connected(node, crtc));
        }
        assert(device.surfaces.dom() =~= Set::empty());
    }
}

/// A device can be removed from among outputs of any ordinary number and size.
pub proof fn devices_can_be_removed_from_ordinary_outputs(takhti: Takhti, node: DrmNode, fine: bool)
    requires
        call_ensures(removal_in_range, (&takhti, node), fine),
        takhti@.outputs.len() <= 0x4000,
        forall|i: int|
            0 <= i < takhti@.outputs.len() ==> {
                (#[trigger] takhti@.outputs[i]).output.mode matches Some(mode) ==> 0 <= mode.size.w
                    <= 0x1_0000 && 0 <= mode.size.h <= 0x1_0000
            },
    ensures
        fine,
{
    if takhti@.tty is Some && takhti@.tty->0.devices.contains_key(node.dev) {
        let outputs = takhti@.outputs;
        let keep = besides(identities(takhti@.tty->0.devices[node.dev]));
        let staying = outputs.filter(keep);
        crate::space::lemma_filter_in_order(outputs, keep);
        let at = choose|at: Seq<int>| #[trigger] crate::space::embedded(staying, outputs, at);
        assert forall|i: int| 0 <= i < staying.len() implies {
            (#[trigger] staying[i]).output.mode matches Some(mode) ==> 0 <= mode.size.w <= 0x1_0000
                && 0 <= mode.size.h <= 0x1_0000
        } by {
            assert(outputs[at[i]] == staying[i]);
        }
        lemma_filter_shortens(outputs, keep);
        crate::space::lemma_ordinary_rows_fit(staying);
    }
}

proof fn lemma_filter_shortens<A>(s: Seq<A>, keep: spec_fn(A) -> bool)
    ensures
        s.filter(keep).len() <= s.len(),
    decreases s.len(),
{
    reveal(Seq::filter);
    if s.len() > 0 {
        lemma_filter_shortens(s.drop_last(), keep);
    }
}

} // verus!
