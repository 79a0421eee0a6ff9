//! Outputs that come and go with their connectors.

use vstd::prelude::*;

use calloop::RegistrationToken;

use crate::geometry::{Point, Size, Transform};
use crate::mode::{ConnectorInfo, DisplayMode, Mode, Resolution};
use crate::node::DrmNode;
use crate::redraw::RedrawState;
use crate::space::{MappedOutput, Output};
use crate::state::{Backend, SurfaceKey, Takhti, TakhtiView, TtySurface};

verus! {

/// Why an output cannot be set up.
#[derive(Clone, Copy, Debug, PartialEq, Eq, Structural)]
pub enum ConnectError {
    /// Another backend drives the outputs.
    NotActive,
    /// The device is not there.
    UnknownDevice,
    /// The connector offers no modes.
    NoModes,
}

/// How to set up an output.
#[derive(Debug)]
pub struct ConnectPlan {
    /// The name of the output.
    pub name: String,
    /// The mode to set.
    pub mode: DisplayMode,
    /// No mode matched the configured resolution; the preferred one stands in.
    pub fallback: bool,
    /// The size of the monitor in millimetres, zero where it is unknown.
    pub physical_size: Size,
    /// The mode as clients see it, which is also the output's preferred mode.
    pub client_mode: Mode,
    /// Where the output goes, at the top.
    pub x: i32,
    /// The GPU that renders the output's frames.
    pub render_node: DrmNode,
    /// Whether that is the output's own device.
    pub can_render: bool,
}

/// A plan, as a value.
#[verifier::ext_equal]
pub struct ConnectPlanView {
    pub name: Seq<char>,
    pub mode: DisplayMode,
    pub fallback: bool,
    pub physical_size: Size,
    pub client_mode: Mode,
    pub x: i32,
    pub render_node: DrmNode,
    pub can_render: bool,
}

impl View for ConnectPlan {
    type V = ConnectPlanView;

    open spec fn view(&self) -> ConnectPlanView {
        ConnectPlanView {
            name: self.name@,
            mode: self.mode,
            fallback: self.fallback,
            physical_size: self.physical_size,
            client_mode: self.client_mode,
            x: self.x,
            render_node: self.render_node,
            can_render: self.can_render,
        }
    }
}

impl ConnectorInfo {
    /// The name of the connector.
    pub open spec fn name(self) -> Seq<char> {
        crate::names::joined_name(
            crate::names::interface_label(self.interface),
            self.interface_id,
        )
    }

    /// The size of the monitor.
    pub open spec fn physical_size(self) -> Size {
        match self.size {
            Some((w, h)) => Size { w: w as i32, h: h as i32 },
            None => Size { w: 0, h: 0 },
        }
    }
}

/// How to set up an output for which a mode was picked.
pub open spec fn connect_plan(
    takhti: TakhtiView,
    node: DrmNode,
    connector: ConnectorInfo,
    name: Seq<char>,
    mode: DisplayMode,
    fallback: bool,
) -> ConnectPlanView {
    let tty = takhti.tty->0;
    let own = tty.devices[node.dev].render_node;
    ConnectPlanView {
        name,
        mode,
        fallback,
        physical_size: connector.physical_size(),
        client_mode: mode.client_mode(),
        x: crate::space::next_x(takhti.outputs) as i32,
        render_node: match own {
            Some(own) => own,
            None => tty.primary_render_node,
        },
        can_render: own is Some,
    }
}

/// Whether setting up an output stays within machine integers: the refresh
/// rates can be computed, and the outputs that are there end within 32 bits.
/// Without a mode to set, nothing more is computed.
pub open spec fn connectable(
    outputs: Seq<MappedOutput>,
    modes: Seq<DisplayMode>,
    target: Resolution,
) -> bool {
    &&& crate::mode::comparable(modes, target)
    &&& crate::mode::picked(modes, target) matches Some((mode, _)) ==> mode.timed()
        && crate::space::edges_fit(outputs)
}

/// Whether this is how to set up the output of a connector of that name, or
/// the reason why it cannot be set up.
pub open spec fn planned(
    takhti: TakhtiView,
    node: DrmNode,
    connector: ConnectorInfo,
    name: Seq<char>,
    plan: Result<ConnectPlan, ConnectError>,
) -> bool {
    match takhti.tty {
        Some(tty) => if tty.devices.contains_key(node.dev) {
            let target = crate::state::resolution_of(takhti.displays, name);
            match crate::mode::picked(connector.modes@, target) {
                Some((mode, fallback)) => plan matches Ok(plan) && plan@ == connect_plan(
                    takhti,
                    node,
                    connector,
                    name,
                    mode,
                    fallback,
                ),
                None => plan == Err::<ConnectPlan, ConnectError>(ConnectError::NoModes),
            }
        } else {
            plan == Err::<ConnectPlan, ConnectError>(ConnectError::UnknownDevice)
        },
        None => plan == Err::<ConnectPlan, ConnectError>(ConnectError::NotActive),
    }
}

/// Plans the output of a connector whose name is known.
pub fn plan_output(takhti: &Takhti, node: DrmNode, connector: &ConnectorInfo, name: String) -> (plan:
    Result<ConnectPlan, ConnectError>)
    requires
        takhti@.tty matches Some(tty) && tty.devices.contains_key(node.dev) ==> connectable(
            takhti@.outputs,
            connector.modes@,
            crate::state::resolution_of(takhti@.displays, name@),
        ),
    ensures
        planned(takhti@, node, *connector, name@, plan),
{
    match &takhti.backend {
        Backend::Tty(data) => {
            let own: Option<DrmNode> = match data.devices.get(&node.dev) {
                Some(device) => device.render_node,
                None => return Err(ConnectError::UnknownDevice),
            };
            let target: Resolution = takhti.settings.resolution_for(&name);
            match crate::mode::pick_mode(connector, target) {
                Some((mode, fallback)) => {
                    let physical_size: Size = match connector.size {
                        Some((w, h)) => Size { w: w as i32, h: h as i32 },
                        None => Size { w: 0, h: 0 },
                    };
                    Ok(
                        ConnectPlan {
                            name,
                            mode,
                            fallback,
                            physical_size,
                            client_mode: mode.to_mode(),
                            x: takhti.space.next_position(),
                            render_node: match own {
                                Some(own) => own,
                                None => data.primary_render_node,
                            },
                            can_render: own.is_some(),
                        },
                    )
                },
                None => Err(ConnectError::NoModes),
            }
        },
        Backend::Other => Err(ConnectError::NotActive),
    }
}

/// Plans the output of a connector that was plugged in: its name, by which
/// the settings know it, the mode that fits them, and a place on the right of
/// the other outputs. Nothing is changed until the scanout has been set up.
pub fn connector_connected(takhti: &Takhti, node: DrmNode, connector: &ConnectorInfo) -> (plan:
    Result<ConnectPlan, ConnectError>)
    requires
        takhti@.tty matches Some(tty) && tty.devices.contains_key(node.dev) ==> connectable(
            takhti@.outputs,
            connector.modes@,
            crate::state::resolution_of(takhti@.displays, connector.name()),
        ),
    ensures
        planned(takhti@, node, *connector, connector.name(), plan),
{
    let name: String = crate::names::connector_name(connector.interface, connector.interface_id);
    plan_output(takhti, node, connector, name)
}

/// Tests whether setting up an output stays within machine integers.
fn is_connectable(takhti: &Takhti, connector: &ConnectorInfo, target: Resolution) -> (fine: bool)
    ensures
        fine == connectable(takhti@.outputs, connector.modes@, target),
{
    if !crate::mode::is_comparable(&connector.modes, target) {
        return false;
    }
    match crate::mode::pick_mode(connector, target) {
        Some((mode, _)) => mode.has_totals() && takhti.space.edges_in_range(),
        None => true,
    }
}

/// Plans the output of a connector that was plugged in, whatever its modes
/// and the settings say. There is no plan where the numbers leave 32 bits or a
/// mode that counts has no totals.
pub fn connector_connected_checked(
    takhti: &Takhti,
    node: DrmNode,
    connector: &ConnectorInfo,
) -> (plan: Option<Result<ConnectPlan, ConnectError>>)
    ensures
        match plan {
            Some(plan) => planned(takhti@, node, *connector, connector.name(), plan),
            None => takhti@.tty is Some && takhti@.tty->0.devices.contains_key(node.dev)
                && !connectable(
                takhti@.outputs,
                connector.modes@,
                crate::state::resolution_of(takhti@.displays, connector.name()),
            ),
        },
{
    let there: bool = match &takhti.backend {
        Backend::Tty(data) => data.devices.contains_key(&node.dev),
        Backend::Other => false,
    };
    let name: String = crate::names::connector_name(connector.interface, connector.interface_id);
    let target: Resolution = takhti.settings.resolution_for(&name);
    if there && !is_connectable(takhti, connector, target) {
        None
    } else {
        Some(connector_connected(takhti, node, connector))
    }
}

/// The compositor once the output of a plan is there: at the top, in the
/// place that was planned, with nothing scheduled.
pub open spec fn with_connected(
    takhti: TakhtiView,
    key: SurfaceKey,
    connector: ConnectorInfo,
    plan: ConnectPlan,
    output: u64,
    global: u64,
) -> TakhtiView {
    TakhtiView {
        tty: Some(
            takhti.tty->0.with_surface(
                key,
                TtySurface {
                    output,
                    name: plan.name,
                    connector,
                    pending_mode: plan.mode,
                    redraw_state: RedrawState::Idle,
                    global,
                },
            ),
        ),
        outputs: crate::space::with_output(
            takhti.outputs,
            MappedOutput {
                output: Output {
                    id: output,
                    name: plan.name,
                    mode: Some(plan.client_mode),
                    transform: Transform::Normal,
                },
                loc: Point { x: plan.x, y: 0 },
            },
        ),
        ..takhti
    }
}

/// Takes in that the scanout of an output has been set up as planned: the
/// output is there from now on, under its identity and its protocol global.
/// The result says whether its device was still there to have it.
pub fn output_ready(
    takhti: &mut Takhti,
    key: SurfaceKey,
    connector: ConnectorInfo,
    plan: ConnectPlan,
    output: u64,
    global: u64,
) -> (connected: bool)
    ensures
        connected == (old(takhti)@.tty is Some && old(takhti)@.tty->0.devices.contains_key(
            key.node.dev,
        )),
        final(takhti)@ == if connected {
            with_connected(old(takhti)@, key, connector, plan, output, global)
        } else {
            old(takhti)@
        },
{
    match &mut takhti.backend {
        Backend::Tty(data) => {
            if !data.devices.contains_key(&key.node.dev) {
                return false;
            }
            takhti.space.map_output(
                Output {
                    id: output,
                    name: plan.name.clone(),
                    mode: Some(plan.client_mode),
                    transform: Transform::Normal,
                },
                Point { x: plan.x, y: 0 },
            );
            data.put_surface(
                key,
                TtySurface {
                    output,
                    name: plan.name,
                    connector,
                    pending_mode: plan.mode,
                    redraw_state: RedrawState::Idle,
                    global,
                },
            );
            true
        },
        Backend::Other => false,
    }
}

/// What is left of an output that was unplugged.
#[derive(Debug)]
pub struct Disconnected {
    /// The identity of the output.
    pub output: u64,
    pub name: String,
    /// The protocol global to remove.
    pub global: u64,
    /// The estimated-vblank timer to cancel.
    pub timer: Option<RegistrationToken>,
}

impl TtySurface {
    /// What is left of the output once it is gone.
    pub open spec fn remains(self) -> Disconnected {
        Disconnected {
            output: self.output,
            name: self.name,
            global: self.global,
            timer: self.redraw_state.timer(),
        }
    }
}

/// The compositor without an output.
pub open spec fn with_disconnected(takhti: TakhtiView, key: SurfaceKey) -> TakhtiView {
    TakhtiView {
        tty: Some(takhti.tty->0.without_surface(key)),
        outputs: crate::space::without(takhti.outputs, takhti.surface(key).output),
        ..takhti
    }
}

/// Takes out the output of a connector that was unplugged. Nothing comes of
/// one that is not there.
pub fn connector_disconnected(takhti: &mut Takhti, node: DrmNode, crtc: u32) -> (gone: Option<
    Disconnected,
>)
    ensures
        ({
            let key = SurfaceKey { node, crtc };
            if old(takhti)@.has(key) {
                &&& final(takhti)@ == with_disconnected(old(takhti)@, key)
                &&& gone == Some(old(takhti)@.surface(key).remains())
            } else {
                &&& final(takhti)@ == old(takhti)@
                &&& gone is None
            }
        }),
{
    match &mut takhti.backend {
        Backend::Tty(data) => match data.remove_surface(SurfaceKey { node, crtc }) {
            Some(surface) => {
                takhti.space.unmap_output(surface.output);
                Some(
                    Disconnected {
                        output: surface.output,
                        name: surface.name,
                        global: surface.global,
                        timer: surface.redraw_state.pending_timer(),
                    },
                )
            },
            None => None,
        },
        Backend::Other => None,
    }
}

/// One report of a connector scan.
#[derive(Clone, Copy, Debug, PartialEq, Eq, Structural)]
pub enum ScanReport {
    /// A connector was plugged in, with a scanout engine where one is free.
    Connected { crtc: Option<u32> },
    /// A connector was unplugged, with the scanout engine that it had.
    Disconnected { crtc: Option<u32> },
}

/// What to do about a report.
#[derive(Clone, Copy, Debug, PartialEq, Eq, Structural)]
pub enum ScanAction {
    Skip,
    Connect { key: SurfaceKey },
    Disconnect { key: SurfaceKey },
}

/// Tests whether a device can be scanned for connectors: it has to be there.
pub fn scannable(takhti: &Takhti, node: DrmNode) -> (there: bool)
    ensures
        there == (takhti@.tty is Some && takhti@.tty->0.devices.contains_key(node.dev)),
{
    match &takhti.backend {
        Backend::Tty(data) => data.devices.contains_key(&node.dev),
        Backend::Other => false,
    }
}

/// What to do about a report of a scan. Without a scanout engine there is
/// nothing to be done.
pub fn scan_action(node: DrmNode, report: ScanReport) -> (action: ScanAction)
    ensures
        action == match report {
            ScanReport::Connected { crtc: Some(crtc) } => ScanAction::Connect {
                key: SurfaceKey { node, crtc },
            },
            ScanReport::Disconnected { crtc: Some(crtc) } => ScanAction::Disconnect {
                key: SurfaceKey { node, crtc },
            },
            _ => ScanAction::Skip,
        },
{
    match report {
        ScanReport::Connected { crtc: Some(crtc) } => ScanAction::Connect {
            key: SurfaceKey { node, crtc },
        },
        ScanReport::Disconnected { crtc: Some(crtc) } => ScanAction::Disconnect {
            key: SurfaceKey { node, crtc },
        },
        _ => ScanAction::Skip,
    }
}

/// What became of one report of a connector scan.
#[derive(Clone, Copy, Debug, PartialEq, Eq, Structural)]
pub enum ScanOutcome {
    /// No scanout engine goes with the connector.
    Skipped,
    /// An output was set up.
    Connected,
    /// An output could not be set up.
    Failed,
    /// A connector was unplugged.
    Disconnected,
}

/// Whether the outputs are others after a scan.
pub open spec fn scan_changed(outcomes: Seq<ScanOutcome>) -> bool {
    exists|i: int|
        0 <= i < outcomes.len() && ((#[trigger] outcomes[i]) is Connected || outcomes[i]
            is Disconnected)
}

/// Tests whether the outputs are others after a scan.
pub fn has_scan_changed(outcomes: &Vec<ScanOutcome>) -> (changed: bool)
    ensures
        changed == scan_changed(outcomes@),
{
    let mut i: usize = 0;
    while i < outcomes.len()
        invariant
            i <= outcomes@.len(),
            forall|j: int|
                0 <= j < i ==> !((#[trigger] outcomes@[j]) is Connected) && !(outcomes@[j]
                    is Disconnected),
        decreases outcomes@.len() - i,
    {
        match outcomes[i] {
            ScanOutcome::Connected | ScanOutcome::Disconnected => {
                assert(outcomes@[i as int] is Connected || outcomes@[i as int] is Disconnected);
                return true;
            },
            ScanOutcome::Skipped | ScanOutcome::Failed => {},
        }
        i += 1;
    }
    false
}

/// Ends a scan of a device's connectors. Where outputs have come or gone, the
/// outputs are packed again; the result then says that the outputs hook is to
/// run and every output to be repainted.
pub fn device_changed(takhti: &mut Takhti, outcomes: &Vec<ScanOutcome>) -> (changed: bool)
    requires
        scan_changed(outcomes@) ==> crate::space::packable(old(takhti)@.outputs),
    ensures
        changed == scan_changed(outcomes@),
        final(takhti)@ == if changed {
            TakhtiView { outputs: crate::space::packed(old(takhti)@.outputs), ..old(takhti)@ }
        } else {
            old(takhti)@
        },
{
    let changed: bool = has_scan_changed(outcomes);
    if changed {
        takhti.space.reposition_outputs();
    }
    changed
}

/// Unplugging an output undoes plugging it in, wherever the output stands in
/// its redraw cycle by then and whatever callbacks are pending: the outputs and
/// devices are as before, the callbacks stay, and what is handed back is what
/// the output came with and the timer that is still pending for it.
pub proof fn disconnecting_undoes_connecting(
    takhti: TakhtiView,
    key: SurfaceKey,
    connector: ConnectorInfo,
    plan: ConnectPlan,
    output: u64,
    global: u64,
    state: RedrawState,
    callbacks: Set<SurfaceKey>,
)
    requires
        takhti.tty is Some,
        takhti.tty->0.devices.contains_key(key.node.dev),
        !takhti.has(key),
        !crate::space::is_mapped(takhti.outputs, output),
    ensures
        ({
            let connected = with_connected(takhti, key, connector, plan, output, global);
            let now = connected.with_state(key, state).with_callbacks(callbacks);
            &&& with_disconnected(connected, key) == takhti
            &&& now.has(key)
            &&& with_disconnected(now, key) == takhti.with_callbacks(callbacks)
            &&& now.surface(key).remains() == (Disconnected {
                output,
                name: plan.name,
                global,
                timer: state.timer(),
            })
        }),
{
    reveal(Seq::filter);
    let connected = with_connected(takhti, key, connector, plan, output, global);
    let now = connected.with_state(key, state).with_callbacks(callbacks);
    let back = with_disconnected(connected, key);
    let later = with_disconnected(now, key);
    let devices = takhti.tty->0.devices;
    let dev = key.node.dev;
    assert(back.tty->0.devices[dev].surfaces =~= devices[dev].surfaces);
    assert(back.tty->0.devices =~= devices);
    assert(later.tty->0.devices[dev].surfaces =~= devices[dev].surfaces);
    assert(later.tty->0.devices =~= devices);
    crate::coherence::lemma_without(takhti.outputs, output, output);
    assert(connected.outputs.drop_last() =~= takhti.outputs);
    assert(back.outputs =~= takhti.outputs);
}

/// How an output is set up: under the connector's name, in the mode that is
/// picked for the resolution under that name, at the size of the monitor, on
/// the right of everything that is there. Its frames are rendered by its own
/// device where that can render, and else by the primary GPU.
pub proof fn outputs_are_set_up_as_configured(
    takhti: Takhti,
    node: DrmNode,
    connector: ConnectorInfo,
    name: String,
    target: Resolution,
    choice: Option<(DisplayMode, bool)>,
    seen: Mode,
    x: i32,
    plan: ConnectPlan,
)
    requires
        call_ensures(connector_connected, (&takhti, node, &connector), Ok(plan)),
        call_ensures(
            crate::names::connector_name,
            (connector.interface, connector.interface_id),
            name,
        ),
        call_ensures(crate::state::Settings::resolution_for, (&takhti.settings, &name), target),
        call_ensures(crate::mode::pick_mode, (&connector, target), choice),
        call_ensures(DisplayMode::to_mode, (&plan.mode,), seen),
        call_ensures(crate::space::PhysicalSpace::next_position, (&takhti.space,), x),
    ensures
        plan.name@ == name@,
        choice == Some((plan.mode, plan.fallback)),
        plan.client_mode == seen,
        plan.x == x,
        connector.size matches Some((w, h)) ==> plan.physical_size.w == w as i32
            && plan.physical_size.h == h as i32,
        connector.size is None ==> plan.physical_size.w == 0 && plan.physical_size.h == 0,
        ({
            let own = takhti@.tty->0.devices[node.dev].render_node;
            &&& plan.can_render <==> own is Some
            &&& own matches Some(own) ==> plan.render_node == own
            &&& own is None ==> plan.render_node == takhti@.tty->0.primary_render_node
        }),
{
    let n: int = crate::space::next_x(takhti@.outputs);
    assert(x == n);
    assert(plan.x == n as i32);
}

/// An output cannot be set up without the TTY backend, on a device that is not
/// there, or without modes, and is told which; in every other case it can.
pub proof fn outputs_fail_for_a_reason(
    takhti: Takhti,
    node: DrmNode,
    connector: ConnectorInfo,
    plan: Result<ConnectPlan, ConnectError>,
)
    requires
        call_ensures(connector_connected, (&takhti, node, &connector), plan),
    ensures
        takhti.backend is Other <==> plan == Err::<ConnectPlan, ConnectError>(
            ConnectError::NotActive,
        ),
        takhti.backend matches Backend::Tty(data) ==> (!data.devices@.contains_key(node.dev)
            <==> plan == Err::<ConnectPlan, ConnectError>(ConnectError::UnknownDevice)),
        takhti.backend matches Backend::Tty(data) ==> (data.devices@.contains_key(node.dev)
            && connector.modes@.len() == 0 <==> plan == Err::<ConnectPlan, ConnectError>(
            ConnectError::NoModes,
        )),
{
    let target = crate::state::resolution_of(takhti@.displays, connector.name());
    crate::mode::picked_mode_is_offered(connector.modes@, target);
}

/// Planning with a check gives what planning without one does, wherever it gives
/// anything.
pub proof fn checked_plans_are_plans(
    takhti: Takhti,
    node: DrmNode,
    connector: ConnectorInfo,
    checked: Option<Result<ConnectPlan, ConnectError>>,
    plan: Result<ConnectPlan, ConnectError>,
)
    requires
        call_ensures(connector_connected_checked, (&takhti, node, &connector), checked),
        call_ensures(connector_connected, (&takhti, node, &connector), plan),
    ensures
        checked matches Some(checked) ==> match (checked, plan) {
            (Ok(a), Ok(b)) => a@ == b@,
            (Err(a), Err(b)) => a == b,
            _ => false,
        },
        !(takhti.backend is Tty) ==> checked is Some,
        connector.modes@.len() == 0 ==> checked is Some,
{
    let target = crate::state::resolution_of(takhti@.displays, connector.name());
    crate::mode::picked_mode_is_offered(connector.modes@, target);
}

/// Setting up an output puts it on its device and last among the outputs, as it
/// was planned: idle, at the top, upright. No other device or output changes.
pub proof fn a_new_output_is_as_planned(
    takhti: &mut Takhti,
    key: SurfaceKey,
    connector: ConnectorInfo,
    plan: ConnectPlan,
    output: u64,
    global: u64,
    connected: bool,
)
    requires
        call_ensures(output_ready, (takhti, key, connector, plan, output, global), connected),
        forall|j: int|
            0 <= j < old(takhti)@.outputs.len() ==> (#[trigger] old(takhti)@.outputs[j]).output.id
                != output,
    ensures
        connected <==> old(takhti)@.tty is Some && old(takhti)@.tty->0.devices.contains_key(
            key.node.dev,
        ),
        !connected ==> final(takhti)@ == old(takhti)@,
        connected ==> {
            let was = old(takhti)@;
            let now = final(takhti)@;
            let surface = now.output_at(key.node, key.crtc);
            &&& now.connected(key.node, key.crtc)
            &&& surface.output == output
            &&& surface.name == plan.name
            &&& surface.connector == connector
            &&& surface.pending_mode == plan.mode
            &&& surface.redraw_state is Idle
            &&& surface.global == global
            &&& now.outputs.len() == was.outputs.len() + 1
            &&& now.outputs.drop_last() == was.outputs
            &&& now.outputs.last().output.id == output
            &&& now.outputs.last().output.name == plan.name
            &&& now.outputs.last().output.mode == Some(plan.client_mode)
            &&& now.outputs.last().output.transform is Normal
            &&& now.outputs.last().loc.x == plan.x
            &&& now.outputs.last().loc.y == 0
            &&& now.displays == was.displays
            &&& now.input == was.input
            &&& now.explicit_sync == was.explicit_sync
            &&& now.tty->0.callbacks == was.tty->0.callbacks
            &&& now.tty->0.devices.dom() == was.tty->0.devices.dom()
            &&& forall|node: DrmNode, crtc: u32|
                (node.dev != key.node.dev || crtc != key.crtc) ==> (#[trigger] now.connected(
                    node,
                    crtc,
                ) <==> was.connected(node, crtc)) && (was.connected(node, crtc) ==> now.output_at(
                    node,
                    crtc,
                ) == was.output_at(node, crtc))
        },
{
    if connected {
        let was = old(takhti)@;
        let now = final(takhti)@;
        assert(!crate::space::is_mapped(was.outputs, output));
        assert(now.outputs.drop_last() =~= was.outputs);
        assert(now.tty->0.devices.dom() =~= was.tty->0.devices.dom());
    }
}

/// Unplugging an output takes it and nothing else, and hands back what it came
/// with and the timer that it awaited.
pub proof fn unplugging_takes_one_output(
    takhti: &mut Takhti,
    node: DrmNode,
    crtc: u32,
    gone: Option<Disconnected>,
    mapped: MappedOutput,
)
    requires
        call_ensures(connector_disconnected, (takhti, node, crtc), gone),
    ensures
        gone is Some <==> old(takhti)@.connected(node, crtc),
        gone is None ==> final(takhti)@ == old(takhti)@,
        gone matches Some(gone) ==> {
            let was = old(takhti)@;
            let now = final(takhti)@;
            let surface = was.output_at(node, crtc);
            &&& gone.output == surface.output
            &&& gone.name == surface.name
            &&& gone.global == surface.global
            &&& gone.timer matches Some(token) ==> surface.redraw_state
                == RedrawState::WaitingForEstimatedVBlank(token) || surface.redraw_state
                == RedrawState::WaitingForEstimatedVBlankAndQueued(token)
            &&& gone.timer is None ==> surface.redraw_state is Idle || surface.redraw_state is Queued
                || surface.redraw_state is WaitingForVBlank
            &&& !now.connected(node, crtc)
            &&& now.outputs.contains(mapped) <==> was.outputs.contains(mapped) && mapped.output.id
                != surface.output
            &&& crate::space::subsequence(now.outputs, was.outputs)
            &&& now.displays == was.displays
            &&& now.input == was.input
            &&& now.explicit_sync == was.explicit_sync
            &&& now.tty->0.callbacks == was.tty->0.callbacks
            &&& now.tty->0.devices.dom() == was.tty->0.devices.dom()
            &&& forall|other: DrmNode, engine: u32|
                (other.dev != node.dev || engine != crtc) ==> (#[trigger] now.connected(
                    other,
                    engine,
                ) <==> was.connected(other, engine)) && (was.connected(other, engine)
                    ==> now.output_at(other, engine) == was.output_at(other, engine))
        },
{
    let key = SurfaceKey { node, crtc };
    let was = old(takhti)@;
    if was.has(key) {
        let id = was.surface(key).output;
        let keep = |mapped: MappedOutput| mapped.output.id != id;
        crate::state::lemma_filter_members(was.outputs, keep, mapped);
        crate::space::lemma_filter_in_order(was.outputs, keep);
        assert(final(takhti)@.tty->0.devices.dom() =~= was.tty->0.devices.dom());
    }
}

/// A connector is set up or taken down on the scanout engine that was reported
/// for it on its device, and passed over without one.
pub proof fn reports_are_acted_on_where_there_is_an_engine(
    node: DrmNode,
    report: ScanReport,
    action: ScanAction,
)
    requires
        call_ensures(scan_action, (node, report), action),
    ensures
        action matches ScanAction::Connect { key } ==> key.node == node && report
            == (ScanReport::Connected { crtc: Some(key.crtc) }),
        action matches ScanAction::Disconnect { key } ==> key.node == node && report
            == (ScanReport::Disconnected { crtc: Some(key.crtc) }),
        action is Skip <==> report == (ScanReport::Connected { crtc: None }) || report
            == (ScanReport::Disconnected { crtc: None }),
{
}

/// A scan in which nothing came or went changes nothing; any other packs the
/// outputs, and touches nothing else.
pub proof fn scans_pack_what_has_changed(
    takhti: &mut Takhti,
    outcomes: Vec<ScanOutcome>,
    changed: bool,
    space: &mut crate::space::PhysicalSpace,
)
    requires
        call_ensures(device_changed, (takhti, &outcomes), changed),
        call_ensures(crate::space::PhysicalSpace::reposition_outputs, (space,), ()),
        old(space).outputs@ == old(takhti)@.outputs,
    ensures
        !changed <==> forall|i: int|
            0 <= i < outcomes@.len() ==> (#[trigger] outcomes@[i]) is Skipped || outcomes@[i] is Failed,
        !changed ==> final(takhti)@ == old(takhti)@,
        changed ==> final(takhti)@.outputs == final(space).outputs@,
        final(takhti)@.tty == old(takhti)@.tty,
        final(takhti)@.displays == old(takhti)@.displays,
        final(takhti)@.input == old(takhti)@.input,
        final(takhti)@.explicit_sync == old(takhti)@.explicit_sync,
{
    if scan_changed(outcomes@) {
        let i = choose|i: int|
            0 <= i < outcomes@.len() && ((#[trigger] outcomes@[i]) is Connected || outcomes@[i]
                is Disconnected);
        assert(!(outcomes@[i] is Skipped) && !(outcomes@[i] is Failed));
    }
}

/// A connector is planned under its own name the way it is under any name.
pub proof fn connectors_are_planned_by_name(
    takhti: Takhti,
    node: DrmNode,
    connector: ConnectorInfo,
    name: String,
    named: Result<ConnectPlan, ConnectError>,
    plan: Result<ConnectPlan, ConnectError>,
)
    requires
        call_ensures(plan_output, (&takhti, node, &connector, name), named),
        call_ensures(connector_connected, (&takhti, node, &connector), plan),
        call_ensures(
            crate::names::connector_name,
            (connector.interface, connector.interface_id),
            name,
        ),
    ensures
        match (named, plan) {
            (Ok(a), Ok(b)) => a@ == b@,
            (Err(a), Err(b)) => a == b,
            _ => false,
        },
{
}

/// There is a plan, or a reason why there is none, for every connector whose
/// modes have totals and rates near enough, next to outputs that end within 32
/// bits.
pub proof fn sane_connectors_can_be_planned(
    takhti: Takhti,
    node: DrmNode,
    connector: ConnectorInfo,
    checked: Option<Result<ConnectPlan, ConnectError>>,
    comparable: bool,
    target: Resolution,
    name: String,
)
    requires
        call_ensures(connector_connected_checked, (&takhti, node, &connector), checked),
        call_ensures(
            crate::names::connector_name,
            (connector.interface, connector.interface_id),
            name,
        ),
        call_ensures(crate::state::Settings::resolution_for, (&takhti.settings, &name), target),
        call_ensures(crate::mode::is_comparable, (&connector.modes, target), comparable),
        comparable,
        forall|i: int|
            0 <= i < connector.modes@.len() ==> (#[trigger] connector.modes@[i]).htotal > 0
                && connector.modes@[i].vtotal > 0,
        call_ensures(crate::space::PhysicalSpace::edges_in_range, (&takhti.space,), true),
    ensures
        checked is Some,
{
    let t = crate::state::resolution_of(takhti@.displays, connector.name());
    crate::mode::picked_mode_is_offered(connector.modes@, t);
}

/// A device can be scanned exactly while it is there.
pub proof fn devices_that_are_there_can_be_scanned(takhti: Takhti, node: DrmNode, there: bool)
    requires
        call_ensures(scannable, (&takhti, node), there),
    ensures
        there <==> (takhti.backend matches Backend::Tty(data) && data.devices@.contains_key(
            node.dev,
        )),
{
}

} // verus!
