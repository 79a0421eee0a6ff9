//! Bringing up a GPU, step by step.
//!
//! Setting up a device takes the session, the GPU and the event loop in turn.
//! Each step takes in what came of the one before, and says what to do next.

use vstd::prelude::*;

use calloop::RegistrationToken;

use crate::devices::{DeviceError, RendererProbe};
use crate::node::DrmNode;
use crate::state::{Takhti, TakhtiView};

verus! {

/// How far a device has come.
#[derive(Clone, Copy, Debug, PartialEq, Eq, Structural)]
pub enum Stage {
    /// It was found on the seat.
    Found,
    /// It is being opened, and probed for a renderer.
    Opening,
    /// A renderer is being brought up on this node.
    AddingRenderer { candidate: DrmNode },
    /// It is the primary GPU, and what goes with that is being set up.
    SettingUpPrimary { render_node: Option<DrmNode> },
    /// Its event source is being registered.
    Registering { render_node: Option<DrmNode> },
    /// Nothing more is to be done, for better or worse.
    Over,
}

/// What came of the last step.
#[derive(Clone, Copy, Debug)]
pub enum Progress {
    /// The device was found.
    Discovered,
    /// The device is open, and this was found out about rendering on it.
    Probed(RendererProbe),
    /// A renderer was brought up, or not.
    RendererAdded(bool),
    /// The dmabuf global was created, or not, and explicit synchronisation is
    /// possible, or not.
    PrimarySetUp { global_created: bool, explicit_sync: bool },
    /// The event source is registered.
    Registered(RegistrationToken),
}

/// What to do next.
#[derive(Clone, Copy, Debug, PartialEq, Eq, Structural)]
pub enum Step {
    /// Nothing: the device is not to be used, or this was out of turn.
    Nothing,
    /// Open the device, and probe it for a renderer.
    Open,
    /// Bring up a renderer on this node.
    AddRenderer { candidate: DrmNode },
    /// Create the dmabuf global, and see about explicit synchronisation.
    SetUpPrimary,
    /// Register the device's event source. Scanout buffers come from this
    /// device.
    Register { allocator: DrmNode },
    /// Give up.
    Fail(DeviceError),
    /// Scan the device for connectors.
    Scan,
}

/// What a step comes to: how far the device has come, what to do next, and the
/// compositor.
pub struct Outcome {
    pub takhti: TakhtiView,
    pub stage: Stage,
    pub step: Step,
}

/// Once it is known where scanout buffers come from, if from anywhere.
pub open spec fn allocating(
    takhti: TakhtiView,
    node: DrmNode,
    render_node: Option<DrmNode>,
) -> Outcome {
    match takhti.tty {
        Some(tty) => match crate::devices::allocator_of(tty, node, render_node) {
            Some(allocator) => Outcome {
                takhti,
                stage: Stage::Registering { render_node },
                step: Step::Register { allocator },
            },
            None => Outcome {
                takhti,
                stage: Stage::Over,
                step: Step::Fail(DeviceError::NoAllocator),
            },
        },
        None => Outcome { takhti, stage: Stage::Over, step: Step::Fail(DeviceError::NotActive) },
    }
}

/// Once it is known where the device renders, if anywhere.
pub open spec fn rendering(
    takhti: TakhtiView,
    node: DrmNode,
    render_node: Option<DrmNode>,
) -> Outcome {
    if crate::devices::brings_up_primary(takhti, render_node) {
        Outcome {
            takhti,
            stage: Stage::SettingUpPrimary { render_node },
            step: Step::SetUpPrimary,
        }
    } else {
        allocating(takhti, node, render_node)
    }
}

/// The compositor once the dmabuf global and explicit synchronisation have been
/// seen to.
pub open spec fn with_primary(
    takhti: TakhtiView,
    render_node: Option<DrmNode>,
    global_created: bool,
    explicit_sync: bool,
) -> TakhtiView {
    if crate::devices::brings_up_primary(takhti, render_node) {
        crate::devices::with_primary_up(takhti, global_created, explicit_sync)
    } else {
        takhti
    }
}

/// What a step comes to.
pub open spec fn stepped(
    takhti: TakhtiView,
    node: DrmNode,
    stage: Stage,
    progress: Progress,
) -> Outcome {
    match (stage, progress) {
        (Stage::Found, Progress::Discovered) => if crate::devices::wanted(takhti, node) {
            Outcome { takhti, stage: Stage::Opening, step: Step::Open }
        } else {
            Outcome { takhti, stage: Stage::Over, step: Step::Nothing }
        },
        (Stage::Opening, Progress::Probed(probe)) => {
            match crate::devices::render_candidate_of(node, probe) {
                Some(candidate) => Outcome {
                    takhti,
                    stage: Stage::AddingRenderer { candidate },
                    step: Step::AddRenderer { candidate },
                },
                None => rendering(takhti, node, None),
            }
        },
        (Stage::AddingRenderer { candidate }, Progress::RendererAdded(added)) => rendering(
            takhti,
            node,
            if added {
                Some(candidate)
            } else {
                None
            },
        ),
        (
            Stage::SettingUpPrimary { render_node },
            Progress::PrimarySetUp { global_created, explicit_sync },
        ) => allocating(
            with_primary(takhti, render_node, global_created, explicit_sync),
            node,
            render_node,
        ),
        (Stage::Registering { render_node }, Progress::Registered(token)) => match takhti.tty {
            Some(tty) => Outcome {
                takhti: TakhtiView {
                    tty: Some(crate::devices::with_device(tty, node, render_node, token)),
                    ..takhti
                },
                stage: Stage::Over,
                step: Step::Scan,
            },
            None => Outcome { takhti, stage: Stage::Over, step: Step::Fail(DeviceError::NotActive) },
        },
        _ => Outcome { takhti, stage, step: Step::Nothing },
    }
}

fn allocate(takhti: &Takhti, node: DrmNode, render_node: Option<DrmNode>) -> (next: (Stage, Step))
    ensures
        ({
            let outcome = allocating(takhti@, node, render_node);
            next == (outcome.stage, outcome.step) && outcome.takhti == takhti@
        }),
{
    match crate::devices::allocator_for(takhti, node, render_node) {
        Ok(allocator) => (Stage::Registering { render_node }, Step::Register { allocator }),
        Err(error) => (Stage::Over, Step::Fail(error)),
    }
}

fn render_on(takhti: &Takhti, node: DrmNode, render_node: Option<DrmNode>) -> (next: (Stage, Step))
    ensures
        ({
            let outcome = rendering(takhti@, node, render_node);
            next == (outcome.stage, outcome.step) && outcome.takhti == takhti@
        }),
{
    if crate::devices::primary_comes_up(takhti, render_node) {
        (Stage::SettingUpPrimary { render_node }, Step::SetUpPrimary)
    } else {
        allocate(takhti, node, render_node)
    }
}

/// Takes in what came of the last step in bringing up a device, and says what
/// to do next. A device that cannot render is used for scanout only; one whose
/// scanout buffers could come from nowhere is not used at all.
pub fn bring_up(takhti: &mut Takhti, node: DrmNode, stage: &mut Stage, progress: Progress) -> (step:
    Step)
    ensures
        ({
            let outcome = stepped(old(takhti)@, node, *old(stage), progress);
            &&& final(takhti)@ == outcome.takhti
            &&& *final(stage) == outcome.stage
            &&& step == outcome.step
        }),
{
    let (next, step): (Stage, Step) = match (*stage, progress) {
        (Stage::Found, Progress::Discovered) => if crate::devices::device_added(takhti, node) {
            (Stage::Opening, Step::Open)
        } else {
            (Stage::Over, Step::Nothing)
        },
        (Stage::Opening, Progress::Probed(probe)) => {
            match crate::devices::render_candidate(node, probe) {
                Some(candidate) => (
                    Stage::AddingRenderer { candidate },
                    Step::AddRenderer { candidate },
                ),
                None => render_on(takhti, node, None),
            }
        },
        (Stage::AddingRenderer { candidate }, Progress::RendererAdded(added)) => render_on(
            takhti,
            node,
            if added {
                Some(candidate)
            } else {
                None
            },
        ),
        (
            Stage::SettingUpPrimary { render_node },
            Progress::PrimarySetUp { global_created, explicit_sync },
        ) => {
            crate::devices::primary_came_up(takhti, render_node, global_created, explicit_sync);
            allocate(takhti, node, render_node)
        },
        (Stage::Registering { render_node }, Progress::Registered(token)) => {
            if crate::devices::device_ready(takhti, node, render_node, token) {
                (Stage::Over, Step::Scan)
            } else {
                (Stage::Over, Step::Fail(DeviceError::NotActive))
            }
        },
        _ => (*stage, Step::Nothing),
    };
    *stage = next;
    step
}

/// No device comes up that has nowhere to take scanout buffers from: it
/// renders itself, or the primary GPU is there.
pub proof fn devices_that_come_up_have_buffers(
    takhti: TakhtiView,
    node: DrmNode,
    stage: Stage,
    progress: Progress,
)
    ensures
        stepped(takhti, node, stage, progress).step matches Step::Register { allocator } ==> {
            let outcome = stepped(takhti, node, stage, progress);
            &&& outcome.stage matches Stage::Registering { render_node }
            &&& render_node is Some ==> allocator == node
            &&& render_node is None ==> allocator == outcome.takhti.tty->0.primary_node
                && outcome.takhti.tty->0.devices.contains_key(allocator.dev)
        },
{
}

/// One turn in the coming and going of devices.
pub enum Turn {
    /// A device that has come this far takes another step.
    Stepped { node: DrmNode, stage: Stage, progress: Progress },
    /// A device is removed.
    Removed { node: DrmNode },
}

/// The compositor after a turn. Nothing comes of removing a device that is not
/// there.
pub open spec fn after_turn(takhti: TakhtiView, turn: Turn) -> TakhtiView {
    match turn {
        Turn::Stepped { node, stage, progress } => stepped(takhti, node, stage, progress).takhti,
        Turn::Removed { node } => if takhti.tty is Some && takhti.tty->0.devices.contains_key(
            node.dev,
        ) {
            crate::devices::with_removed(takhti, node)
        } else {
            takhti
        },
    }
}

/// The compositor after some turns.
pub open spec fn after_turns(takhti: TakhtiView, turns: Seq<Turn>) -> TakhtiView
    decreases turns.len(),
{
    if turns.len() == 0 {
        takhti
    } else {
        after_turn(after_turns(takhti, turns.drop_last()), turns.last())
    }
}

/// Once the dmabuf global has been created, it stays: through any course of
/// devices that come up, all the way or not, and of devices that are removed,
/// no device is ever asked to create it again.
pub proof fn the_dmabuf_global_is_created_once(
    takhti: TakhtiView,
    turns: Seq<Turn>,
    node: DrmNode,
    stage: Stage,
    progress: Progress,
)
    requires
        takhti.tty matches Some(tty) && tty.dmabuf_global_created,
    ensures
        ({
            let now = after_turns(takhti, turns);
            &&& now.tty matches Some(tty)
            &&& tty.dmabuf_global_created
            &&& !(stepped(now, node, stage, progress).step is SetUpPrimary)
        }),
    decreases turns.len(),
{
    if turns.len() > 0 {
        the_dmabuf_global_is_created_once(takhti, turns.drop_last(), node, stage, progress);
    }
}

/// Until its event source is registered, a device that is being brought up
/// changes nothing about the devices and outputs that are there.
pub proof fn unfinished_devices_change_no_outputs(
    takhti: TakhtiView,
    node: DrmNode,
    stage: Stage,
    progress: Progress,
)
    requires
        !(progress is Registered),
        takhti.tty is Some,
    ensures
        ({
            let after = stepped(takhti, node, stage, progress).takhti;
            &&& after.tty is Some
            &&& after.tty->0.devices == takhti.tty->0.devices
            &&& after.outputs == takhti.outputs
        }),
{
}

/// A device that was found is opened exactly if it is wanted.
pub proof fn found_devices_are_opened_if_wanted(
    takhti: &mut Takhti,
    node: DrmNode,
    stage: &mut Stage,
    step: Step,
    open: bool,
)
    requires
        call_ensures(bring_up, (takhti, node, stage, Progress::Discovered), step),
        call_ensures(crate::devices::device_added, (&*old(takhti), node), open),
        *old(stage) is Found,
    ensures
        final(takhti)@ == old(takhti)@,
        open ==> step is Open && *final(stage) is Opening,
        !open ==> step is Nothing && *final(stage) is Over,
{
}

/// Whether what is to be done next, once it is settled where a device renders,
/// is right: the primary GPU is set up first where this is it and there is no
/// dmabuf global, and else the event source is registered with buffers from
/// where they come from, or the device given up for want of that.
pub open spec fn goes_on(
    takhti: Takhti,
    node: DrmNode,
    render_node: Option<DrmNode>,
    stage: Stage,
    step: Step,
) -> bool {
    forall|up: bool, allocator: Result<DrmNode, DeviceError>|
        #[trigger] call_ensures(crate::devices::primary_comes_up, (&takhti, render_node), up)
            && #[trigger] call_ensures(
            crate::devices::allocator_for,
            (&takhti, node, render_node),
            allocator,
        ) ==> {
            &&& up ==> step is SetUpPrimary && stage == (Stage::SettingUpPrimary { render_node })
            &&& !up ==> match allocator {
                Ok(allocator) => step == (Step::Register { allocator }) && stage
                    == (Stage::Registering { render_node }),
                Err(error) => step == Step::Fail(error) && stage is Over,
            }
        }
}

/// A device that was probed gets a renderer on its candidate, and goes on
/// without one where it has none.
pub proof fn probed_devices_get_a_renderer(
    takhti: &mut Takhti,
    node: DrmNode,
    stage: &mut Stage,
    probe: RendererProbe,
    step: Step,
    candidate: Option<DrmNode>,
)
    requires
        call_ensures(bring_up, (takhti, node, stage, Progress::Probed(probe)), step),
        call_ensures(crate::devices::render_candidate, (node, probe), candidate),
        *old(stage) is Opening,
    ensures
        final(takhti)@ == old(takhti)@,
        candidate matches Some(candidate) ==> step == (Step::AddRenderer { candidate })
            && *final(stage) == (Stage::AddingRenderer { candidate }),
        candidate is None ==> goes_on(*old(takhti), node, None, *final(stage), step),
{
}

/// A device whose renderer came up renders there, and one whose renderer did not
/// come up is used for scanout only.
pub proof fn devices_render_where_their_renderer_came_up(
    takhti: &mut Takhti,
    node: DrmNode,
    stage: &mut Stage,
    candidate: DrmNode,
    added: bool,
    step: Step,
)
    requires
        call_ensures(bring_up, (takhti, node, stage, Progress::RendererAdded(added)), step),
        *old(stage) == (Stage::AddingRenderer { candidate }),
    ensures
        final(takhti)@ == old(takhti)@,
        added ==> goes_on(*old(takhti), node, Some(candidate), *final(stage), step),
        !added ==> goes_on(*old(takhti), node, None, *final(stage), step),
{
}

/// Once the primary GPU is set up, what came of it is taken in, and the event
/// source is registered with buffers from where they come from then.
pub proof fn the_primary_goes_on_to_registration(
    takhti: &mut Takhti,
    node: DrmNode,
    stage: &mut Stage,
    render_node: Option<DrmNode>,
    global_created: bool,
    explicit_sync: bool,
    step: Step,
    alone: &mut Takhti,
    allocator: Result<DrmNode, DeviceError>,
)
    requires
        call_ensures(
            bring_up,
            (takhti, node, stage, Progress::PrimarySetUp { global_created, explicit_sync }),
            step,
        ),
        *old(stage) == (Stage::SettingUpPrimary { render_node }),
        call_ensures(
            crate::devices::primary_came_up,
            (alone, render_node, global_created, explicit_sync),
            (),
        ),
        old(alone)@ == old(takhti)@,
        call_ensures(
            crate::devices::allocator_for,
            (&*final(takhti), node, render_node),
            allocator,
        ),
    ensures
        final(takhti)@ == final(alone)@,
        allocator matches Ok(allocator) ==> step == (Step::Register { allocator }) && *final(stage)
            == (Stage::Registering { render_node }),
        allocator matches Err(error) ==> step == Step::Fail(error) && *final(stage) is Over,
{
}

/// Once its event source is registered, a device is there, and is scanned.
pub proof fn registered_devices_are_scanned(
    takhti: &mut Takhti,
    node: DrmNode,
    stage: &mut Stage,
    render_node: Option<DrmNode>,
    token: RegistrationToken,
    step: Step,
    alone: &mut Takhti,
    ready: bool,
)
    requires
        call_ensures(bring_up, (takhti, node, stage, Progress::Registered(token)), step),
        *old(stage) == (Stage::Registering { render_node }),
        call_ensures(crate::devices::device_ready, (alone, node, render_node, token), ready),
        old(alone)@ == old(takhti)@,
    ensures
        final(takhti)@ == final(alone)@,
        *final(stage) is Over,
        ready ==> step is Scan,
        !ready ==> step == Step::Fail(DeviceError::NotActive),
{
}

/// What comes out of turn is ignored.
pub proof fn what_comes_out_of_turn_is_ignored(
    takhti: &mut Takhti,
    node: DrmNode,
    stage: &mut Stage,
    progress: Progress,
    step: Step,
)
    requires
        call_ensures(bring_up, (takhti, node, stage, progress), step),
        !(*old(stage) is Found && progress is Discovered),
        !(*old(stage) is Opening && progress is Probed),
        !(*old(stage) is AddingRenderer && progress is RendererAdded),
        !(*old(stage) is SettingUpPrimary && progress is PrimarySetUp),
        !(*old(stage) is Registering && progress is Registered),
    ensures
        step is Nothing,
        *final(stage) == *old(stage),
        final(takhti)@ == old(takhti)@,
{
}

} // verus!
