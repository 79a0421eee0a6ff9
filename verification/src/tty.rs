//! The TTY backend: what happens to the outputs of every GPU on the seat.
//!
//! Rendering is driven by damage through a redraw state machine per output.
//! Connectors and GPUs come and go; no connected output at all is a state to
//! wait in, not an error.

use vstd::prelude::*;

use calloop::RegistrationToken;

use crate::geometry::{Point, Rectangle, Size};
use crate::mode::Mode;
use crate::node::DrmNode;
use crate::redraw::{RedrawState, RenderOutcome};
use crate::state::{Backend, SurfaceKey, Takhti, TakhtiView, TtyView};

verus! {

/// The compositor once a repaint of an output has been requested.
pub open spec fn with_request(takhti: TakhtiView, key: SurfaceKey) -> TakhtiView {
    let state = takhti.surface(key).redraw_state;
    takhti.with_state(key, state.requested()).with_callback(
        key,
        state.asks_on_request(takhti.pending(key)),
    )
}

/// The compositor once an output has had a vblank.
pub open spec fn with_vblank(takhti: TakhtiView, key: SurfaceKey) -> TakhtiView {
    let state = takhti.surface(key).redraw_state;
    takhti.with_state(key, state.presented()).with_callback(
        key,
        state.asks_on_vblank(takhti.pending(key)),
    )
}

/// The compositor once the estimated-vblank timer of an output has fired.
pub open spec fn with_estimate(takhti: TakhtiView, key: SurfaceKey) -> TakhtiView {
    takhti.with_state(key, takhti.surface(key).redraw_state.estimated())
}

/// The compositor once an output has been rendered.
pub open spec fn with_render(
    takhti: TakhtiView,
    key: SurfaceKey,
    outcome: RenderOutcome,
) -> TakhtiView {
    takhti.with_state(key, takhti.surface(key).redraw_state.after_render(outcome))
}

/// The compositor once the idle callback of an output has started.
pub open spec fn with_callback_run(takhti: TakhtiView, key: SurfaceKey) -> TakhtiView {
    match takhti.tty {
        Some(tty) => TakhtiView {
            tty: Some(TtyView { callbacks: tty.callbacks.remove(key), ..tty }),
            ..takhti
        },
        None => takhti,
    }
}

/// Requests a repaint of one output. Cheap and idempotent: every source of
/// damage calls this and the state machine coalesces. The result says whether
/// an idle callback has to be scheduled for the output: not if one is pending.
pub fn queue_redraw(takhti: &mut Takhti, node: DrmNode, crtc: u32) -> (schedule: bool)
    ensures
        ({
            let key = SurfaceKey { node, crtc };
            if old(takhti)@.has(key) {
                let state = old(takhti)@.surface(key).redraw_state;
                &&& final(takhti)@ == with_request(old(takhti)@, key)
                &&& schedule == state.asks_on_request(old(takhti)@.pending(key))
            } else {
                &&& final(takhti)@ == old(takhti)@
                &&& !schedule
            }
        }),
{
    let key = SurfaceKey { node, crtc };
    match &mut takhti.backend {
        Backend::Tty(data) => match data.get_surface(key) {
            Some(surface) => {
                let mut state: RedrawState = surface.redraw_state;
                let schedule: bool = state.request(data.is_pending(key));
                data.set_state(key, state);
                data.note_callback(key, schedule);
                schedule
            },
            None => false,
        },
        Backend::Other => false,
    }
}

/// What a redraw request does to a state.
pub open spec fn on_request() -> spec_fn(RedrawState) -> RedrawState {
    |state: RedrawState| state.requested()
}

/// The outputs of these for which a redraw request asks for an idle callback.
pub open spec fn asking(tty: TtyView, keys: Set<SurfaceKey>) -> Set<SurfaceKey> {
    keys.filter(
        |key: SurfaceKey|
            tty.surface(key).redraw_state.asks_on_request(tty.callbacks.contains(key)),
    )
}

/// The backend once a repaint of some outputs has been requested.
pub open spec fn with_requests(tty: TtyView, keys: Set<SurfaceKey>) -> TtyView {
    TtyView {
        callbacks: tty.callbacks.union(asking(tty, keys)),
        ..tty.with_states(keys, on_request())
    }
}

/// The compositor once a repaint of every output has been requested.
pub open spec fn all_requested(takhti: TakhtiView) -> TakhtiView {
    TakhtiView {
        tty: match takhti.tty {
            Some(tty) => Some(with_requests(tty, tty.keys())),
            None => None,
        },
        ..takhti
    }
}

/// Whether these are the outputs for which a redraw request asks for an idle
/// callback, each one once.
pub open spec fn lists_asking(takhti: TakhtiView, schedule: Seq<SurfaceKey>) -> bool {
    &&& schedule.no_duplicates()
    &&& forall|key: SurfaceKey| #[trigger]
        schedule.contains(key) <==> takhti.has(key) && takhti.surface(
            key,
        ).redraw_state.asks_on_request(takhti.pending(key))
}

/// Requesting a repaint of one more output.
proof fn lemma_with_requests_insert(tty: TtyView, keys: Set<SurfaceKey>, key: SurfaceKey)
    requires
        tty.has(key),
        !keys.contains(key),
    ensures
        ({
            let step = with_requests(tty, keys);
            &&& step.has(key)
            &&& step.surface(key) == tty.surface(key)
            &&& step.callbacks.contains(key) == tty.callbacks.contains(key)
            &&& step.with_state(key, tty.surface(key).redraw_state.requested()).with_callback(
                key,
                tty.surface(key).redraw_state.asks_on_request(tty.callbacks.contains(key)),
            ) == with_requests(tty, keys.insert(key))
        }),
{
    let asked = tty.surface(key).redraw_state.asks_on_request(tty.callbacks.contains(key));
    let step = with_requests(tty, keys);
    let one = step.with_state(key, tty.surface(key).redraw_state.requested()).with_callback(
        key,
        asked,
    );
    let after = with_requests(tty, keys.insert(key));
    crate::state::lemma_with_states(tty, keys, on_request());
    crate::state::lemma_with_states_insert(tty, keys, key, on_request());
    assert(tty.with_states(keys, on_request()).has(key));
    assert(tty.with_states(keys, on_request()).surface(key) == tty.surface(key));
    assert(one.devices =~= after.devices);
    assert(one.callbacks =~= after.callbacks);
}

/// Requests a repaint of every output. The result names the outputs for which
/// an idle callback has to be scheduled.
pub fn queue_redraw_all(takhti: &mut Takhti) -> (schedule: Vec<SurfaceKey>)
    ensures
        lists_asking(old(takhti)@, schedule@),
        final(takhti)@ == all_requested(old(takhti)@),
{
    let mut schedule: Vec<SurfaceKey> = Vec::new();
    match &takhti.backend {
        Backend::Tty(data) => {
            let ghost before = takhti@;
            let ghost tty = data@;
            let targets = data.targets();
            let mut i: usize = 0;
            proof {
                crate::state::lemma_with_states_empty(tty, on_request());
                assert(targets@.take(0).to_set() =~= Set::empty());
                assert(tty.callbacks.union(asking(tty, Set::empty())) =~= tty.callbacks);
            }
            while i < targets.len()
                invariant
                    i <= targets@.len(),
                    targets@.no_duplicates(),
                    targets@.to_set() == tty.keys(),
                    before.tty == Some(tty),
                    takhti@ == (TakhtiView {
                        tty: Some(with_requests(tty, targets@.take(i as int).to_set())),
                        ..before
                    }),
                    schedule@.no_duplicates(),
                    forall|key: SurfaceKey| #[trigger]
                        schedule@.contains(key) <==> targets@.take(i as int).contains(key)
                            && tty.surface(key).redraw_state.asks_on_request(
                            tty.callbacks.contains(key),
                        ),
                decreases targets@.len() - i,
            {
                let key: SurfaceKey = targets[i];
                let ghost done = targets@.take(i as int);
                proof {
                    assert(targets@.to_set().contains(key));
                    crate::state::lemma_prefix_set(targets@, i as int);
                    crate::state::lemma_with_states(tty, done.to_set(), on_request());
                    crate::state::lemma_with_states_insert(tty, done.to_set(), key, on_request());
                    assert(targets@.take(i + 1) =~= done.push(key));
                    crate::state::lemma_push(done, key);
                    assert(done.to_set().contains(key) <==> done.contains(key));
                    lemma_with_requests_insert(tty, done.to_set(), key);
                }
                if queue_redraw(takhti, key.node, key.crtc) {
                    proof {
                        crate::state::lemma_push(schedule@, key);
                    }
                    schedule.push(key);
                }
                i += 1;
            }
            proof {
                assert(targets@.take(i as int) =~= targets@);
                assert forall|key: SurfaceKey| targets@.contains(key) <==> #[trigger] tty.has(
                    key,
                ) by {
                    assert(targets@.to_set().contains(key) <==> targets@.contains(key));
                }
            }
        },
        Backend::Other => {},
    }
    schedule
}

/// Starts the idle callback of an output, which is no longer pending from now
/// on. The result says whether to render the output: nothing is rendered where
/// the output is gone or no redraw is wanted of it any more, such as after it
/// was unplugged and plugged in again.
pub fn on_callback(takhti: &mut Takhti, node: DrmNode, crtc: u32) -> (render: bool)
    ensures
        ({
            let key = SurfaceKey { node, crtc };
            &&& final(takhti)@ == with_callback_run(old(takhti)@, key)
            &&& render == (old(takhti)@.has(key) && old(takhti)@.surface(
                key,
            ).redraw_state.renders_on_callback())
        }),
{
    let key = SurfaceKey { node, crtc };
    match &mut takhti.backend {
        Backend::Tty(data) => {
            data.forget_callback(key);
            match data.get_surface(key) {
                Some(surface) => match surface.redraw_state {
                    RedrawState::Queued => true,
                    _ => false,
                },
                None => false,
            }
        },
        Backend::Other => false,
    }
}

/// A point in time.
#[derive(Clone, Copy, Debug, PartialEq, Eq, Structural)]
pub struct Timestamp {
    pub secs: u64,
    pub nanos: u32,
}

/// The clock that a vblank was timed by.
#[derive(Clone, Copy, Debug, PartialEq, Eq, Structural)]
pub enum VBlankTime {
    /// The clock that presentation times are given in.
    Monotonic(Timestamp),
    /// A clock that can be set, and is of no use here.
    Realtime,
}

/// What the kernel says about a vblank.
#[derive(Clone, Copy, Debug, PartialEq, Eq, Structural)]
pub struct VBlankMetadata {
    pub time: VBlankTime,
    pub sequence: u32,
}

/// What clients are told about a frame that was presented.
#[derive(Clone, Copy, Debug, PartialEq, Eq, Structural)]
pub struct Presentation {
    pub time: Timestamp,
    /// The output's refresh rate in millihertz, where it is known.
    pub refresh: Option<i32>,
    pub sequence: u64,
    /// The presentation was synchronised with the vertical retrace.
    pub vsync: bool,
    /// The time is that of the hardware.
    pub hw_clock: bool,
    /// The hardware signalled the presentation.
    pub hw_completion: bool,
}

/// What a vblank comes to.
#[derive(Clone, Copy, Debug, PartialEq, Eq, Structural)]
pub struct VBlank {
    /// To be told to the clients, if the presented frame carries feedback.
    pub presentation: Presentation,
    /// Whether an idle callback has to be scheduled for the output.
    pub schedule: bool,
}

/// The refresh rate of a mode, where it has one.
pub open spec fn known_refresh(mode: Option<Mode>) -> Option<i32> {
    match mode {
        Some(mode) => if mode.refresh > 0 {
            Some(mode.refresh)
        } else {
            None
        },
        None => None,
    }
}

fn refresh_of(mode: Option<Mode>) -> (refresh: Option<i32>)
    ensures
        refresh == known_refresh(mode),
{
    match mode {
        Some(mode) => if mode.refresh > 0 {
            Some(mode.refresh)
        } else {
            None
        },
        None => None,
    }
}

/// What to tell clients about a frame: the time of the vblank where the kernel
/// gave one on the right clock, and else the present time.
pub open spec fn presentation_at(
    meta: Option<VBlankMetadata>,
    now: Timestamp,
    mode: Option<Mode>,
) -> Presentation {
    let hardware = match meta {
        Some(VBlankMetadata { time: VBlankTime::Monotonic(time), .. }) => Some(time),
        _ => None,
    };
    Presentation {
        time: match hardware {
            Some(time) => time,
            None => now,
        },
        refresh: known_refresh(mode),
        sequence: match meta {
            Some(meta) => meta.sequence as u64,
            None => 0,
        },
        vsync: true,
        hw_clock: hardware is Some,
        hw_completion: true,
    }
}

/// Works out what to tell clients about a frame that was presented.
pub fn presentation(meta: Option<VBlankMetadata>, now: Timestamp, mode: Option<Mode>) -> (result:
    Presentation)
    ensures
        result == presentation_at(meta, now, mode),
{
    let hardware: Option<Timestamp> = match meta {
        Some(meta) => match meta.time {
            VBlankTime::Monotonic(time) => Some(time),
            VBlankTime::Realtime => None,
        },
        None => None,
    };
    Presentation {
        time: match hardware {
            Some(time) => time,
            None => now,
        },
        refresh: refresh_of(mode),
        sequence: match meta {
            Some(meta) => meta.sequence as u64,
            None => 0,
        },
        vsync: true,
        hw_clock: hardware.is_some(),
        hw_completion: true,
    }
}

/// Takes in a vblank of an output. Damage that arrived while the frame was in
/// flight repaints the output again, and a stale vblank disturbs nothing. Of
/// an output that is not there, nothing comes.
pub fn on_vblank(
    takhti: &mut Takhti,
    node: DrmNode,
    crtc: u32,
    meta: Option<VBlankMetadata>,
    now: Timestamp,
) -> (vblank: Option<VBlank>)
    ensures
        ({
            let key = SurfaceKey { node, crtc };
            if old(takhti)@.has(key) {
                let surface = old(takhti)@.surface(key);
                let state = surface.redraw_state;
                let mode = crate::space::mode_of(old(takhti)@.outputs, surface.output);
                &&& final(takhti)@ == with_vblank(old(takhti)@, key)
                &&& vblank == Some(
                    VBlank {
                        presentation: presentation_at(meta, now, mode),
                        schedule: state.asks_on_vblank(old(takhti)@.pending(key)),
                    },
                )
            } else {
                &&& final(takhti)@ == old(takhti)@
                &&& vblank is None
            }
        }),
{
    let key = SurfaceKey { node, crtc };
    match &mut takhti.backend {
        Backend::Tty(data) => match data.get_surface(key) {
            Some(surface) => {
                let mode: Option<Mode> = takhti.space.output_mode(surface.output);
                let mut state: RedrawState = surface.redraw_state;
                let schedule: bool = state.vblank(data.is_pending(key));
                data.set_state(key, state);
                data.note_callback(key, schedule);
                Some(VBlank { presentation: presentation(meta, now, mode), schedule })
            },
            None => None,
        },
        Backend::Other => None,
    }
}

/// Takes in the estimated-vblank timer of an output: it idles out, or renders
/// again if damage arrived. The result says whether to render it right away.
pub fn on_estimated_vblank(takhti: &mut Takhti, node: DrmNode, crtc: u32) -> (render: bool)
    ensures
        ({
            let key = SurfaceKey { node, crtc };
            if old(takhti)@.has(key) {
                let state = old(takhti)@.surface(key).redraw_state;
                &&& final(takhti)@ == with_estimate(old(takhti)@, key)
                &&& render == state.renders_on_estimate()
            } else {
                &&& final(takhti)@ == old(takhti)@
                &&& !render
            }
        }),
{
    let key = SurfaceKey { node, crtc };
    match &mut takhti.backend {
        Backend::Tty(data) => match data.get_surface(key) {
            Some(surface) => {
                let mut state: RedrawState = surface.redraw_state;
                let render: bool = state.estimated_vblank();
                data.set_state(key, state);
                render
            },
            None => false,
        },
        Backend::Other => false,
    }
}

/// The rate in millihertz at which to estimate the vblanks of a mode.
pub open spec fn estimated_refresh(mode: Option<Mode>) -> i32 {
    match known_refresh(mode) {
        Some(refresh) => refresh,
        None => 60_000,
    }
}

/// Puts an output that was rendered without damage in wait for an estimated
/// vblank: nothing was queued for scanout, so no vblank will arrive. A timer
/// that is already pending is reused. The result is the rate in millihertz of
/// the timer that has to be registered, one interval out.
pub fn queue_estimated_vblank(takhti: &mut Takhti, node: DrmNode, crtc: u32) -> (register: Option<
    i32,
>)
    ensures
        ({
            let key = SurfaceKey { node, crtc };
            if old(takhti)@.has(key) {
                let surface = old(takhti)@.surface(key);
                let state = surface.redraw_state;
                let mode = crate::space::mode_of(old(takhti)@.outputs, surface.output);
                &&& final(takhti)@ == old(takhti)@.with_state(key, state.undamaged())
                &&& register == if state.wants_timer() {
                    Some(estimated_refresh(mode))
                } else {
                    None
                }
            } else {
                &&& final(takhti)@ == old(takhti)@
                &&& register is None
            }
        }),
{
    let key = SurfaceKey { node, crtc };
    match &mut takhti.backend {
        Backend::Tty(data) => match data.get_surface(key) {
            Some(surface) => {
                let mode: Option<Mode> = takhti.space.output_mode(surface.output);
                let mut state: RedrawState = surface.redraw_state;
                let register: bool = state.no_damage();
                data.set_state(key, state);
                if !register {
                    None
                } else {
                    match refresh_of(mode) {
                        Some(refresh) => Some(refresh),
                        None => Some(60_000),
                    }
                }
            },
            None => None,
        },
        Backend::Other => None,
    }
}

/// Puts an output in a redraw state, if it is there.
fn enter_state(takhti: &mut Takhti, key: SurfaceKey, state: RedrawState)
    ensures
        final(takhti)@ == if old(takhti)@.has(key) {
            old(takhti)@.with_state(key, state)
        } else {
            old(takhti)@
        },
{
    match &mut takhti.backend {
        Backend::Tty(data) => {
            if data.contains(key) {
                data.set_state(key, state);
            }
        },
        Backend::Other => {},
    }
}

/// Takes in the outcome of registering an estimated-vblank timer. Without one
/// the output goes idle.
pub fn estimated_vblank_registered(
    takhti: &mut Takhti,
    node: DrmNode,
    crtc: u32,
    token: Option<RegistrationToken>,
)
    ensures
        ({
            let key = SurfaceKey { node, crtc };
            final(takhti)@ == if old(takhti)@.has(key) {
                old(takhti)@.with_state(key, RedrawState::timer_registered(token))
            } else {
                old(takhti)@
            }
        }),
{
    let state: RedrawState = match token {
        Some(token) => RedrawState::WaitingForEstimatedVBlank(token),
        None => RedrawState::Idle,
    };
    enter_state(takhti, SurfaceKey { node, crtc }, state)
}

/// What the pointer looks like.
#[derive(Clone, Copy, Debug, PartialEq, Eq, Structural)]
pub enum CursorStatus {
    Hidden,
    /// An image that a client provides; the surface may be gone already.
    Surface { alive: bool },
    /// An image by name.
    Named,
}

/// What to draw for the pointer.
#[derive(Clone, Copy, Debug, PartialEq, Eq, Structural)]
pub enum CursorSource {
    Nothing,
    /// The client's surface.
    Surface,
    /// The theme's image, or a block where the theme has none.
    Theme,
}

/// What to draw for a pointer that looks like this.
pub open spec fn cursor_source(status: CursorStatus) -> CursorSource {
    match status {
        CursorStatus::Hidden => CursorSource::Nothing,
        CursorStatus::Surface { alive } => if alive {
            CursorSource::Surface
        } else {
            CursorSource::Theme
        },
        CursorStatus::Named => CursorSource::Theme,
    }
}

/// How to render an output.
#[derive(Clone, Copy, Debug, PartialEq, Eq, Structural)]
pub struct RenderPlan {
    /// The identity of the output.
    pub output: u64,
    /// The area of the output, empty while it has none.
    pub area: Rectangle,
    /// Where to render.
    pub render_node: DrmNode,
    /// Where the finished frame goes; it is copied across if that is elsewhere.
    pub target_node: DrmNode,
    pub cursor: CursorSource,
}

/// The area of an output, empty where it is not mapped or has no mode.
pub open spec fn area_or_empty(takhti: TakhtiView, id: u64) -> Rectangle {
    match crate::space::area_of(takhti.outputs, id) {
        Some(area) => area,
        None => Rectangle { loc: Point { x: 0, y: 0 }, size: Size { w: 0, h: 0 } },
    }
}

/// Starts rendering an output. Nothing is rendered where the output is gone,
/// or while its device is inactive because the session is elsewhere. Rendering
/// happens on the primary GPU, whichever device shows the frame.
pub fn render_surface(
    takhti: &Takhti,
    node: DrmNode,
    crtc: u32,
    device_active: bool,
    cursor: CursorStatus,
) -> (plan: Option<RenderPlan>)
    ensures
        ({
            let key = SurfaceKey { node, crtc };
            if takhti@.has(key) && device_active {
                let tty = takhti@.tty->0;
                plan == Some(
                    RenderPlan {
                        output: tty.surface(key).output,
                        area: area_or_empty(takhti@, tty.surface(key).output),
                        render_node: tty.primary_render_node,
                        target_node: match tty.devices[node.dev].render_node {
                            Some(own) => own,
                            None => tty.primary_render_node,
                        },
                        cursor: cursor_source(cursor),
                    },
                )
            } else {
                plan is None
            }
        }),
{
    let key = SurfaceKey { node, crtc };
    match &takhti.backend {
        Backend::Tty(data) => {
            match data.get_surface(key) {
                Some(surface) => {
                    if !device_active {
                        return None;
                    }
                    let area: Rectangle = match takhti.space.output_geometry(surface.output) {
                        Some(area) => area,
                        None => Rectangle { loc: Point { x: 0, y: 0 }, size: Size { w: 0, h: 0 } },
                    };
                    let target_node: DrmNode = data.render_node_for(node);
                    let source: CursorSource = match cursor {
                        CursorStatus::Hidden => CursorSource::Nothing,
                        CursorStatus::Surface { alive } => if alive {
                            CursorSource::Surface
                        } else {
                            CursorSource::Theme
                        },
                        CursorStatus::Named => CursorSource::Theme,
                    };
                    Some(
                        RenderPlan {
                            output: surface.output,
                            area,
                            render_node: data.primary_render_node,
                            target_node,
                            cursor: source,
                        },
                    )
                },
                None => None,
            }
        },
        Backend::Other => None,
    }
}

/// What comes after rendering an output.
#[derive(Clone, Copy, Debug, PartialEq, Eq, Structural)]
pub enum FrameAction {
    /// Nothing.
    Nothing,
    /// First of all, wait for the frame to be finished if so asked. Then send
    /// frame callbacks, and queue the frame for scanout.
    QueueFrame { wait: bool },
    /// The same, but there is no frame to queue: register an estimated-vblank
    /// timer of this rate in millihertz, unless one is pending.
    Estimate { wait: bool, register: Option<i32> },
}

/// Putting an output in the state that it is in changes nothing.
proof fn lemma_state_kept(takhti: TakhtiView, key: SurfaceKey)
    requires
        takhti.has(key),
    ensures
        takhti.with_state(key, takhti.surface(key).redraw_state) == takhti,
{
    let tty = takhti.tty->0;
    let after = tty.with_state(key, tty.surface(key).redraw_state);
    let dev = key.node.dev;
    assert(after.devices[dev].surfaces =~= tty.devices[dev].surfaces);
    assert(after.devices =~= tty.devices);
}

/// Takes in how rendering an output went.
pub fn frame_rendered(takhti: &mut Takhti, node: DrmNode, crtc: u32, outcome: RenderOutcome) -> (
action: FrameAction)
    ensures
        ({
            let key = SurfaceKey { node, crtc };
            if old(takhti)@.has(key) {
                let surface = old(takhti)@.surface(key);
                let state = surface.redraw_state;
                let mode = crate::space::mode_of(old(takhti)@.outputs, surface.output);
                &&& final(takhti)@ == with_render(old(takhti)@, key, outcome)
                &&& action == match outcome {
                    RenderOutcome::Rendered { empty, needs_sync, swapchain } => if empty {
                        FrameAction::Estimate {
                            wait: needs_sync && swapchain,
                            register: if state.wants_timer() {
                                Some(estimated_refresh(mode))
                            } else {
                                None
                            },
                        }
                    } else {
                        FrameAction::QueueFrame { wait: needs_sync && swapchain }
                    },
                    _ => FrameAction::Nothing,
                }
            } else {
                &&& final(takhti)@ == old(takhti)@
                &&& action == FrameAction::Nothing
            }
        }),
{
    let key = SurfaceKey { node, crtc };
    let there: bool = match &takhti.backend {
        Backend::Tty(data) => data.contains(key),
        Backend::Other => false,
    };
    if !there {
        return FrameAction::Nothing;
    }
    match outcome {
        RenderOutcome::Rendered { empty, needs_sync, swapchain } => {
            let wait: bool = needs_sync && swapchain;
            if empty {
                let register: Option<i32> = queue_estimated_vblank(takhti, node, crtc);
                FrameAction::Estimate { wait, register }
            } else {
                proof {
                    lemma_state_kept(takhti@, key);
                }
                FrameAction::QueueFrame { wait }
            }
        },
        RenderOutcome::NoRenderer | RenderOutcome::Failed => {
            enter_state(takhti, key, RedrawState::Idle);
            FrameAction::Nothing
        },
    }
}

/// Takes in whether a frame was queued for scanout. An output whose frame was
/// refused goes idle.
pub fn frame_queued(takhti: &mut Takhti, node: DrmNode, crtc: u32, accepted: bool)
    ensures
        ({
            let key = SurfaceKey { node, crtc };
            final(takhti)@ == if old(takhti)@.has(key) {
                old(takhti)@.with_state(key, RedrawState::frame_queued(accepted))
            } else {
                old(takhti)@
            }
        }),
{
    let state: RedrawState = if accepted {
        RedrawState::WaitingForVBlank { redraw_needed: false }
    } else {
        RedrawState::Idle
    };
    enter_state(takhti, SurfaceKey { node, crtc }, state)
}

/// A request touches one output: it is wanted from then on, and what was under
/// way for it stays so. An idle callback is asked for exactly where the output
/// was idle and none is pending, and is put down as pending then.
pub proof fn a_request_reaches_one_output(takhti: &mut Takhti, node: DrmNode, crtc: u32, schedule: bool)
    requires
        call_ensures(queue_redraw, (takhti, node, crtc), schedule),
    ensures
        !old(takhti)@.connected(node, crtc) ==> final(takhti)@ == old(takhti)@ && !schedule,
        old(takhti)@.connected(node, crtc) ==> {
            let was = old(takhti)@.output_at(node, crtc).redraw_state;
            let now = final(takhti)@.output_at(node, crtc).redraw_state;
            let pending = old(takhti)@.tty->0.callbacks.contains(SurfaceKey { node, crtc });
            &&& final(takhti)@.differs_in_redraw_of(old(takhti)@, node, crtc)
            &&& schedule <==> was is Idle && !pending
            &&& final(takhti)@.tty->0.callbacks.contains(SurfaceKey { node, crtc }) <==> pending
                || schedule
            &&& was is Idle || was is Queued <==> now is Queued
            &&& was is WaitingForVBlank <==> now is WaitingForVBlank
            &&& now matches RedrawState::WaitingForVBlank { redraw_needed } ==> redraw_needed
            &&& was matches RedrawState::WaitingForEstimatedVBlank(token) ==> now
                == RedrawState::WaitingForEstimatedVBlankAndQueued(token)
            &&& was is WaitingForEstimatedVBlankAndQueued ==> now == was
        },
{
    let key = SurfaceKey { node, crtc };
    if old(takhti)@.has(key) {
        crate::state::lemma_state_differs(
            old(takhti)@,
            key,
            old(takhti)@.surface(key).redraw_state.requested(),
            final(takhti)@.tty->0.callbacks,
        );
        assert(final(takhti)@ == old(takhti)@.with_state(
            key,
            old(takhti)@.surface(key).redraw_state.requested(),
        ).with_callbacks(final(takhti)@.tty->0.callbacks));
    }
}

/// A request for every output does to each what a request for it alone does,
/// and schedules a callback for each for which that would.
pub proof fn a_request_for_all_is_one_for_each(
    all: &mut Takhti,
    schedule: Vec<SurfaceKey>,
    one: &mut Takhti,
    node: DrmNode,
    crtc: u32,
    scheduled: bool,
)
    requires
        call_ensures(queue_redraw_all, (all,), schedule),
        call_ensures(queue_redraw, (one, node, crtc), scheduled),
        old(all)@ == old(one)@,
    ensures
        final(all)@.differs_in_redraws(old(all)@),
        schedule@.no_duplicates(),
        schedule@.contains(SurfaceKey { node, crtc }) <==> scheduled,
        old(all)@.connected(node, crtc) ==> {
            let key = SurfaceKey { node, crtc };
            &&& final(all)@.output_at(node, crtc) == final(one)@.output_at(node, crtc)
            &&& final(all)@.tty->0.callbacks.contains(key)
                <==> final(one)@.tty->0.callbacks.contains(key)
        },
        old(all)@.tty is Some && !old(all)@.connected(node, crtc) ==> (
        final(all)@.tty->0.callbacks.contains(SurfaceKey { node, crtc })
            <==> old(all)@.tty->0.callbacks.contains(SurfaceKey { node, crtc })),
{
    let key = SurfaceKey { node, crtc };
    let before = old(all)@;
    let after = final(all)@;
    if before.tty is Some {
        let tty = before.tty->0;
        let states = tty.with_states(tty.keys(), on_request());
        crate::state::lemma_with_states(tty, tty.keys(), on_request());
        assert(after.tty->0.devices == states.devices);
        assert forall|n: DrmNode, c: u32| #[trigger]
            after.connected(n, c) <==> before.connected(n, c) by {
            assert(states.has(SurfaceKey { node: n, crtc: c }) <==> tty.has(
                SurfaceKey { node: n, crtc: c },
            ));
        }
        assert forall|n: DrmNode, c: u32| #[trigger] after.connected(n, c) implies ({
            let now = after.output_at(n, c);
            let then = before.output_at(n, c);
            &&& now.output == then.output
            &&& now.name == then.name
            &&& now.connector == then.connector
            &&& now.pending_mode == then.pending_mode
            &&& now.global == then.global
        }) by {
            let other = SurfaceKey { node: n, crtc: c };
            assert(tty.has(other));
            assert(states.surface(other).output == tty.surface(other).output);
        }
        if tty.has(key) {
            assert(tty.keys().contains(key));
            assert(states.surface(key).redraw_state == tty.surface(key).redraw_state.requested());
        }
        assert(asking(tty, tty.keys()).contains(key) <==> tty.has(key) && tty.surface(
            key,
        ).redraw_state.asks_on_request(tty.callbacks.contains(key)));
    }
}

/// An idle callback that starts is no longer pending, and changes nothing else.
/// It renders an output that is there and queued, and no other.
pub proof fn a_callback_renders_a_queued_output(takhti: &mut Takhti, node: DrmNode, crtc: u32, render: bool)
    requires
        call_ensures(on_callback, (takhti, node, crtc), render),
    ensures
        render <==> old(takhti)@.connected(node, crtc) && old(takhti)@.output_at(
            node,
            crtc,
        ).redraw_state is Queued,
        final(takhti)@.tty is Some <==> old(takhti)@.tty is Some,
        final(takhti)@.tty is Some ==> {
            &&& final(takhti)@ == old(takhti)@.with_callbacks(final(takhti)@.tty->0.callbacks)
            &&& forall|key: SurfaceKey| #[trigger]
                final(takhti)@.tty->0.callbacks.contains(key)
                    <==> old(takhti)@.tty->0.callbacks.contains(key) && key != (SurfaceKey {
                    node,
                    crtc,
                })
        },
        final(takhti)@.tty is None ==> final(takhti)@ == old(takhti)@,
{
}

/// What clients are told of a frame: the time of the vblank on the right clock
/// where the kernel gives one, and else the present time; the count of the
/// vblank; and the rate that the output runs at, where it has one.
pub proof fn clients_are_told_the_truth(
    meta: Option<VBlankMetadata>,
    now: Timestamp,
    mode: Option<Mode>,
    told: Presentation,
)
    requires
        call_ensures(presentation, (meta, now, mode), told),
    ensures
        mode matches Some(m) ==> m.refresh > 0 ==> told.refresh == Some(m.refresh),
        mode matches Some(m) ==> m.refresh <= 0 ==> told.refresh is None,
        mode is None ==> told.refresh is None,
        meta matches Some(m) ==> told.sequence == m.sequence,
        meta is None ==> told.sequence == 0,
        meta matches Some(m) ==> (m.time matches VBlankTime::Monotonic(time) ==> told.time == time
            && told.hw_clock),
        meta matches Some(m) ==> m.time is Realtime ==> told.time == now && !told.hw_clock,
        meta is None ==> told.time == now && !told.hw_clock,
        told.vsync,
        told.hw_completion,
{
}

/// A vblank tells clients the rate of the output that it came from, at whatever
/// position that is, and what else is told of any frame.
pub proof fn a_vblank_tells_its_outputs_rate(
    takhti: &mut Takhti,
    node: DrmNode,
    crtc: u32,
    meta: Option<VBlankMetadata>,
    now: Timestamp,
    vblank: Option<VBlank>,
    i: int,
)
    requires
        call_ensures(on_vblank, (takhti, node, crtc, meta, now), vblank),
        old(takhti)@.connected(node, crtc),
        0 <= i < old(takhti)@.outputs.len(),
        old(takhti)@.outputs[i].output.id == old(takhti)@.output_at(node, crtc).output,
        forall|j: int|
            0 <= j < i ==> (#[trigger] old(takhti)@.outputs[j]).output.id != old(takhti)@.output_at(
                node,
                crtc,
            ).output,
    ensures
        ({
            let mode = old(takhti)@.outputs[i].output.mode;
            &&& vblank matches Some(vblank)
            &&& mode matches Some(m) ==> m.refresh > 0 ==> vblank.presentation.refresh == Some(
                m.refresh,
            )
            &&& mode matches Some(m) ==> m.refresh <= 0 ==> vblank.presentation.refresh is None
            &&& mode is None ==> vblank.presentation.refresh is None
            &&& forall|told: Presentation| #[trigger]
                call_ensures(presentation, (meta, now, mode), told) ==> vblank.presentation == told
        }),
{
    lemma_mode_at(old(takhti)@, old(takhti)@.output_at(node, crtc).output, i);
}

/// The mode of an identity is that of its first output.
proof fn lemma_mode_at(takhti: TakhtiView, id: u64, i: int)
    requires
        0 <= i < takhti.outputs.len(),
        takhti.outputs[i].output.id == id,
        forall|j: int| 0 <= j < i ==> (#[trigger] takhti.outputs[j]).output.id != id,
    ensures
        crate::space::mode_of(takhti.outputs, id) == takhti.outputs[i].output.mode,
        crate::space::area_of(takhti.outputs, id) == takhti.outputs[i].area(),
{
    assert(crate::space::first_at(takhti.outputs, id, i));
    let k = crate::space::position_of(takhti.outputs, id);
    assert(crate::space::first_at(takhti.outputs, id, k));
    assert(k == i);
}

/// A vblank ends the wait of the output that it came from, and touches no other:
/// a redraw that was wanted meanwhile is queued, and asks for an idle callback
/// unless one is pending. Where no frame was awaited it changes nothing, and of
/// an output that is not there nothing comes.
pub proof fn a_vblank_reaches_one_output(
    takhti: &mut Takhti,
    node: DrmNode,
    crtc: u32,
    meta: Option<VBlankMetadata>,
    now: Timestamp,
    vblank: Option<VBlank>,
)
    requires
        call_ensures(on_vblank, (takhti, node, crtc, meta, now), vblank),
    ensures
        vblank is Some <==> old(takhti)@.connected(node, crtc),
        vblank is None ==> final(takhti)@ == old(takhti)@,
        vblank matches Some(vblank) ==> {
            let was = old(takhti)@.output_at(node, crtc).redraw_state;
            let state = final(takhti)@.output_at(node, crtc).redraw_state;
            let pending = old(takhti)@.tty->0.callbacks.contains(SurfaceKey { node, crtc });
            let wanted = was == (RedrawState::WaitingForVBlank { redraw_needed: true });
            &&& final(takhti)@.differs_in_redraw_of(old(takhti)@, node, crtc)
            &&& !(was is WaitingForVBlank) ==> state == was
            &&& was is WaitingForVBlank ==> (wanted <==> state is Queued) && (!wanted <==> state is Idle)
            &&& vblank.schedule <==> wanted && !pending
            &&& final(takhti)@.tty->0.callbacks.contains(SurfaceKey { node, crtc }) <==> pending
                || vblank.schedule
        },
{
    let key = SurfaceKey { node, crtc };
    if old(takhti)@.has(key) {
        let state = old(takhti)@.surface(key).redraw_state.presented();
        crate::state::lemma_state_differs(
            old(takhti)@,
            key,
            state,
            final(takhti)@.tty->0.callbacks,
        );
        assert(final(takhti)@ == old(takhti)@.with_state(key, state).with_callbacks(
            final(takhti)@.tty->0.callbacks,
        ));
    }
}

/// What puts one output in another state and touches no callback leaves all
/// else.
proof fn lemma_only_state(before: TakhtiView, after: TakhtiView, key: SurfaceKey, state: RedrawState)
    requires
        before.has(key),
        after == before.with_state(key, state),
    ensures
        after.differs_in_redraw_of(before, key.node, key.crtc),
        after.tty->0.callbacks == before.tty->0.callbacks,
        after.output_at(key.node, key.crtc).redraw_state == state,
{
    crate::state::lemma_state_differs(before, key, state, before.tty->0.callbacks);
    assert(after == before.with_state(key, state).with_callbacks(before.tty->0.callbacks));
}

/// The timer of an output ends its wait, and renders exactly where a redraw was
/// requested meanwhile.
pub proof fn a_timer_reaches_one_output(takhti: &mut Takhti, node: DrmNode, crtc: u32, render: bool)
    requires
        call_ensures(on_estimated_vblank, (takhti, node, crtc), render),
    ensures
        !old(takhti)@.connected(node, crtc) ==> final(takhti)@ == old(takhti)@ && !render,
        old(takhti)@.connected(node, crtc) ==> {
            let was = old(takhti)@.output_at(node, crtc).redraw_state;
            let state = final(takhti)@.output_at(node, crtc).redraw_state;
            &&& final(takhti)@.differs_in_redraw_of(old(takhti)@, node, crtc)
            &&& final(takhti)@.tty->0.callbacks == old(takhti)@.tty->0.callbacks
            &&& render <==> was is WaitingForEstimatedVBlankAndQueued
            &&& render ==> state is Queued
            &&& was is WaitingForEstimatedVBlank ==> state is Idle
            &&& was is Idle || was is Queued || was is WaitingForVBlank ==> state == was
        },
{
    let key = SurfaceKey { node, crtc };
    if old(takhti)@.has(key) {
        let state = old(takhti)@.surface(key).redraw_state.estimated();
        lemma_only_state(old(takhti)@, final(takhti)@, key, state);
    }
}

/// Where no timer is pending, one is asked for at the rate of the output's mode,
/// or at sixty hertz where that is not known.
pub proof fn timers_run_at_the_outputs_rate(
    takhti: &mut Takhti,
    node: DrmNode,
    crtc: u32,
    register: Option<i32>,
    i: int,
)
    requires
        call_ensures(queue_estimated_vblank, (takhti, node, crtc), register),
        old(takhti)@.connected(node, crtc),
        0 <= i < old(takhti)@.outputs.len(),
        old(takhti)@.outputs[i].output.id == old(takhti)@.output_at(node, crtc).output,
        forall|j: int|
            0 <= j < i ==> (#[trigger] old(takhti)@.outputs[j]).output.id != old(takhti)@.output_at(
                node,
                crtc,
            ).output,
    ensures
        register matches Some(rate) ==> rate > 0,
        (old(takhti)@.outputs[i].output.mode matches Some(m) && m.refresh > 0) ==> (
        register matches Some(rate) ==> rate == old(takhti)@.outputs[i].output.mode->0.refresh),
        !(old(takhti)@.outputs[i].output.mode matches Some(m) && m.refresh > 0) ==> (
        register matches Some(rate) ==> rate == 60_000),
{
    lemma_mode_at(old(takhti)@, old(takhti)@.output_at(node, crtc).output, i);
}

/// After a render without damage a pending timer is awaited again under its own
/// token; without one the output is idle, and a timer is asked for.
pub proof fn undamaged_outputs_await_one_timer(
    takhti: &mut Takhti,
    node: DrmNode,
    crtc: u32,
    register: Option<i32>,
)
    requires
        call_ensures(queue_estimated_vblank, (takhti, node, crtc), register),
    ensures
        !old(takhti)@.connected(node, crtc) ==> final(takhti)@ == old(takhti)@ && register is None,
        old(takhti)@.connected(node, crtc) ==> {
            let was = old(takhti)@.output_at(node, crtc).redraw_state;
            let state = final(takhti)@.output_at(node, crtc).redraw_state;
            &&& final(takhti)@.differs_in_redraw_of(old(takhti)@, node, crtc)
            &&& final(takhti)@.tty->0.callbacks == old(takhti)@.tty->0.callbacks
            &&& was matches RedrawState::WaitingForEstimatedVBlank(token) ==> state
                == RedrawState::WaitingForEstimatedVBlank(token)
            &&& was matches RedrawState::WaitingForEstimatedVBlankAndQueued(token) ==> state
                == RedrawState::WaitingForEstimatedVBlank(token)
            &&& was is Idle || was is Queued || was is WaitingForVBlank ==> state is Idle
            &&& register is Some <==> state is Idle
        },
{
    let key = SurfaceKey { node, crtc };
    if old(takhti)@.has(key) {
        let state = old(takhti)@.surface(key).redraw_state.undamaged();
        lemma_only_state(old(takhti)@, final(takhti)@, key, state);
    }
}

/// An output whose timer was registered awaits it; one whose timer was refused
/// goes idle.
pub proof fn a_registered_timer_is_awaited(
    takhti: &mut Takhti,
    node: DrmNode,
    crtc: u32,
    token: Option<RegistrationToken>,
)
    requires
        call_ensures(estimated_vblank_registered, (takhti, node, crtc, token), ()),
    ensures
        !old(takhti)@.connected(node, crtc) ==> final(takhti)@ == old(takhti)@,
        old(takhti)@.connected(node, crtc) ==> {
            let state = final(takhti)@.output_at(node, crtc).redraw_state;
            &&& final(takhti)@.differs_in_redraw_of(old(takhti)@, node, crtc)
            &&& final(takhti)@.tty->0.callbacks == old(takhti)@.tty->0.callbacks
            &&& token matches Some(token) ==> state == RedrawState::WaitingForEstimatedVBlank(token)
            &&& token is None ==> state is Idle
        },
{
    let key = SurfaceKey { node, crtc };
    if old(takhti)@.has(key) {
        let state = RedrawState::timer_registered(token);
        lemma_only_state(old(takhti)@, final(takhti)@, key, state);
    }
}

/// An output whose frame was accepted awaits its vblank, with nothing wanted
/// yet; one whose frame was refused goes idle.
pub proof fn an_accepted_frame_is_awaited(takhti: &mut Takhti, node: DrmNode, crtc: u32, accepted: bool)
    requires
        call_ensures(frame_queued, (takhti, node, crtc, accepted), ()),
    ensures
        !old(takhti)@.connected(node, crtc) ==> final(takhti)@ == old(takhti)@,
        old(takhti)@.connected(node, crtc) ==> {
            let state = final(takhti)@.output_at(node, crtc).redraw_state;
            &&& final(takhti)@.differs_in_redraw_of(old(takhti)@, node, crtc)
            &&& final(takhti)@.tty->0.callbacks == old(takhti)@.tty->0.callbacks
            &&& accepted ==> state == (RedrawState::WaitingForVBlank { redraw_needed: false })
            &&& !accepted ==> state is Idle
        },
{
    let key = SurfaceKey { node, crtc };
    if old(takhti)@.has(key) {
        let state = RedrawState::frame_queued(accepted);
        lemma_only_state(old(takhti)@, final(takhti)@, key, state);
    }
}

/// What comes after a render. A render that failed leaves an idle output and
/// nothing to do. A frame with something to show is queued, and its output left
/// as it is until then. A frame with nothing to show does what an undamaged
/// output does. Either way one waits for a frame that was composited and that
/// the hardware cannot wait for by itself, and for no other.
pub proof fn a_render_is_followed_up(
    takhti: &mut Takhti,
    node: DrmNode,
    crtc: u32,
    outcome: RenderOutcome,
    action: FrameAction,
)
    requires
        call_ensures(frame_rendered, (takhti, node, crtc, outcome), action),
    ensures
        !old(takhti)@.connected(node, crtc) ==> final(takhti)@ == old(takhti)@ && action is Nothing,
        old(takhti)@.connected(node, crtc) ==> match outcome {
            RenderOutcome::Rendered { empty, needs_sync, swapchain } => {
                &&& !empty <==> action is QueueFrame
                &&& empty <==> action is Estimate
                &&& !empty ==> final(takhti)@ == old(takhti)@
                &&& action matches FrameAction::QueueFrame { wait } ==> (wait <==> needs_sync
                    && swapchain)
                &&& action matches FrameAction::Estimate { wait, .. } ==> (wait <==> needs_sync
                    && swapchain)
            },
            _ => {
                &&& action is Nothing
                &&& final(takhti)@.differs_in_redraw_of(old(takhti)@, node, crtc)
                &&& final(takhti)@.tty->0.callbacks == old(takhti)@.tty->0.callbacks
                &&& final(takhti)@.output_at(node, crtc).redraw_state is Idle
            },
        },
{
    let key = SurfaceKey { node, crtc };
    if old(takhti)@.has(key) {
        lemma_state_kept(old(takhti)@, key);
        let state = old(takhti)@.surface(key).redraw_state.after_render(outcome);
        lemma_only_state(old(takhti)@, final(takhti)@, key, state);
    }
}

/// A frame with nothing to show leaves an output as one that was found undamaged
/// is left, and asks for the same timer.
pub proof fn an_empty_frame_is_no_damage(
    rendered: &mut Takhti,
    undamaged: &mut Takhti,
    node: DrmNode,
    crtc: u32,
    outcome: RenderOutcome,
    action: FrameAction,
    asked: Option<i32>,
)
    requires
        call_ensures(frame_rendered, (rendered, node, crtc, outcome), action),
        call_ensures(queue_estimated_vblank, (undamaged, node, crtc), asked),
        old(rendered)@ == old(undamaged)@,
        outcome matches RenderOutcome::Rendered { empty, .. } && empty,
    ensures
        final(rendered)@ == final(undamaged)@,
        action matches FrameAction::Estimate { register, .. } ==> register == asked,
{
}

/// An output is rendered while it is there and its device active, and not else.
/// Rendering happens on the primary GPU, and the frame goes to the output's own
/// device, or stays where that cannot render.
pub proof fn outputs_render_on_the_primary_gpu(
    takhti: Takhti,
    node: DrmNode,
    crtc: u32,
    active: bool,
    cursor: CursorStatus,
    plan: Option<RenderPlan>,
)
    requires
        call_ensures(render_surface, (&takhti, node, crtc, active, cursor), plan),
    ensures
        plan is Some <==> active && takhti@.connected(node, crtc),
        plan matches Some(plan) ==> {
            let tty = takhti@.tty->0;
            &&& plan.output == takhti@.output_at(node, crtc).output
            &&& plan.render_node == tty.primary_render_node
            &&& tty.devices[node.dev].render_node matches Some(own) ==> plan.target_node == own
            &&& tty.devices[node.dev].render_node is None ==> plan.target_node == plan.render_node
        },
{
}

/// The area that is rendered is the one that the output covers, at whatever
/// position it is, and empty where it has no mode.
pub proof fn outputs_render_their_area(
    takhti: Takhti,
    node: DrmNode,
    crtc: u32,
    active: bool,
    cursor: CursorStatus,
    plan: RenderPlan,
    i: int,
    area: Option<Rectangle>,
)
    requires
        call_ensures(render_surface, (&takhti, node, crtc, active, cursor), Some(plan)),
        0 <= i < takhti@.outputs.len(),
        takhti@.outputs[i].output.id == takhti@.output_at(node, crtc).output,
        forall|j: int|
            0 <= j < i ==> (#[trigger] takhti@.outputs[j]).output.id != takhti@.output_at(
                node,
                crtc,
            ).output,
        call_ensures(crate::space::MappedOutput::geometry, (&takhti@.outputs[i],), area),
    ensures
        area matches Some(area) ==> plan.area == area,
        area is None ==> plan.area.size.w == 0 && plan.area.size.h == 0 && plan.area.loc.x == 0
            && plan.area.loc.y == 0,
{
    lemma_mode_at(takhti@, takhti@.output_at(node, crtc).output, i);
}

/// A client's cursor is drawn as long as its surface is there, a hidden one is
/// not drawn, and the theme's stands in for any other.
pub proof fn the_theme_stands_in_for_dead_cursors(
    takhti: Takhti,
    node: DrmNode,
    crtc: u32,
    active: bool,
    cursor: CursorStatus,
    plan: RenderPlan,
)
    requires
        call_ensures(render_surface, (&takhti, node, crtc, active, cursor), Some(plan)),
    ensures
        plan.cursor is Nothing <==> cursor is Hidden,
        plan.cursor is Surface <==> (cursor matches CursorStatus::Surface { alive } && alive),
{
}

} // verus!
