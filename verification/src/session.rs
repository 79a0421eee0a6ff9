//! Switching the session away and back, and to another virtual terminal.

use vstd::prelude::*;

use calloop::RegistrationToken;

use crate::node::DrmNode;
use crate::redraw::RedrawState;
use crate::state::{Backend, SurfaceKey, Takhti, TakhtiView, TtyView};

verus! {

/// What the session manager tells.
#[derive(Clone, Copy, Debug, PartialEq, Eq, Structural)]
pub enum SessionEvent {
    /// The session was switched away.
    PauseSession,
    /// The session was switched back.
    ActivateSession,
}

/// An output that starts afresh.
#[derive(Clone, Copy, Debug)]
pub struct FreshOutput {
    pub key: SurfaceKey,
    /// The estimated-vblank timer to cancel.
    pub timer: Option<RegistrationToken>,
    /// Whether an idle callback has to be scheduled for the output.
    pub schedule: bool,
}

/// What a session event comes to.
#[derive(Debug)]
pub enum SessionAction {
    /// Nothing.
    Nothing,
    /// Suspend input, and pause these devices.
    Pause { devices: Vec<u64> },
    /// Resume input, and activate these devices. Then for each output: reset
    /// the state of its scanout, cancel its timer, and schedule an idle
    /// callback for it, unless one is pending.
    Activate { devices: Vec<u64>, outputs: Vec<FreshOutput> },
}

/// What the return of the session does to a redraw state: frames in flight
/// were lost, and a repaint is queued.
pub open spec fn on_activation() -> spec_fn(RedrawState) -> RedrawState {
    |state: RedrawState| RedrawState::activated()
}

/// The backend once the session has returned to some outputs: each of them is
/// to be repainted, and has an idle callback pending.
pub open spec fn with_activation(tty: TtyView, keys: Set<SurfaceKey>) -> TtyView {
    TtyView {
        callbacks: tty.callbacks.union(keys),
        ..tty.with_states(keys, on_activation())
    }
}

/// What an output that starts afresh leaves behind, and what it asks for.
pub open spec fn fresh_output(tty: TtyView, key: SurfaceKey) -> FreshOutput {
    FreshOutput {
        key,
        timer: tty.surface(key).redraw_state.timer(),
        schedule: RedrawState::Idle.asks_on_request(tty.callbacks.contains(key)),
    }
}

/// The outputs that a list names.
pub open spec fn keys_of(outputs: Seq<FreshOutput>) -> Seq<SurfaceKey> {
    outputs.map_values(|output: FreshOutput| output.key)
}

impl Takhti {
    /// Takes in a session event.
    pub fn on_session_event(&mut self, event: SessionEvent) -> (action: SessionAction)
        ensures
            match old(self)@.tty {
                Some(tty) => match event {
                    SessionEvent::PauseSession => {
                        &&& final(self)@ == old(self)@
                        &&& action matches SessionAction::Pause { devices }
                        &&& devices@.no_duplicates()
                        &&& devices@.to_set() == tty.devices.dom()
                    },
                    SessionEvent::ActivateSession => {
                        &&& final(self)@ == (TakhtiView {
                            tty: Some(with_activation(tty, tty.keys())),
                            ..old(self)@
                        })
                        &&& action matches SessionAction::Activate { devices, outputs }
                        &&& devices@.no_duplicates()
                        &&& devices@.to_set() == tty.devices.dom()
                        &&& keys_of(outputs@).no_duplicates()
                        &&& keys_of(outputs@).to_set() == tty.keys()
                        &&& forall|i: int|
                            0 <= i < outputs@.len() ==> (#[trigger] outputs@[i]) == fresh_output(
                                tty,
                                outputs@[i].key,
                            )
                    },
                },
                None => final(self)@ == old(self)@ && action is Nothing,
            },
    {
        let ghost before = self@;
        match &mut self.backend {
            Backend::Tty(data) => match event {
                SessionEvent::PauseSession => SessionAction::Pause { devices: data.nodes() },
                SessionEvent::ActivateSession => {
                    let ghost tty = data@;
                    let devices = data.nodes();
                    let targets = data.targets();
                    let mut outputs: Vec<FreshOutput> = Vec::new();
                    let mut i: usize = 0;
                    proof {
                        crate::state::lemma_with_states_empty(tty, on_activation());
                        assert(targets@.take(0).to_set() =~= Set::empty());
                        assert(tty.callbacks.union(Set::empty()) =~= tty.callbacks);
                    }
                    while i < targets.len()
                        invariant
                            i <= targets@.len(),
                            targets@.no_duplicates(),
                            targets@.to_set() == tty.keys(),
                            data@ == with_activation(tty, targets@.take(i as int).to_set()),
                            keys_of(outputs@) == targets@.take(i as int),
                            forall|j: int|
                                0 <= j < outputs@.len() ==> (#[trigger] outputs@[j])
                                    == fresh_output(tty, outputs@[j].key),
                        decreases targets@.len() - i,
                    {
                        let key: SurfaceKey = targets[i];
                        let ghost done = targets@.take(i as int);
                        proof {
                            assert(targets@.to_set().contains(key));
                            crate::state::lemma_prefix_set(targets@, i as int);
                            crate::state::lemma_with_states(tty, done.to_set(), on_activation());
                            crate::state::lemma_with_states_insert(
                                tty,
                                done.to_set(),
                                key,
                                on_activation(),
                            );
                            let states = tty.with_states(done.to_set(), on_activation());
                            assert(states.has(key) && states.surface(key) == tty.surface(key));
                        }
                        let timer: Option<RegistrationToken> = match data.get_surface(key) {
                            Some(surface) => surface.redraw_state.pending_timer(),
                            None => None,
                        };
                        let mut state: RedrawState = RedrawState::Idle;
                        let schedule: bool = state.request(data.is_pending(key));
                        data.set_state(key, state);
                        data.note_callback(key, schedule);
                        proof {
                            let after = with_activation(tty, targets@.take(i + 1).to_set());
                            assert(data@.devices =~= after.devices);
                            assert(data@.callbacks =~= after.callbacks);
                        }
                        let ghost listed = outputs@;
                        outputs.push(FreshOutput { key, timer, schedule });
                        assert(keys_of(outputs@) =~= keys_of(listed).push(key));
                        assert(targets@.take(i + 1) =~= done.push(key));
                        i += 1;
                    }
                    assert(targets@.take(i as int) =~= targets@);
                    SessionAction::Activate { devices, outputs }
                },
            },
            Backend::Other => SessionAction::Nothing,
        }
    }

    /// The virtual terminal to ask the session for. Only a session on a seat
    /// can switch.
    pub fn change_vt(&self, vt: i32) -> (request: Option<i32>)
        ensures
            request == if self@.tty is Some {
                Some(vt)
            } else {
                None
            },
    {
        match &self.backend {
            Backend::Tty(_) => Some(vt),
            Backend::Other => None,
        }
    }
}

/// Switching the session away pauses every device, and changes nothing.
pub proof fn a_pause_pauses_every_device(takhti: &mut Takhti, action: SessionAction, dev: u64)
    requires
        call_ensures(Takhti::on_session_event, (takhti, SessionEvent::PauseSession), action),
    ensures
        final(takhti)@ == old(takhti)@,
        old(takhti)@.tty is None <==> action is Nothing,
        old(takhti)@.tty is Some ==> (action matches SessionAction::Pause { devices }
            && devices@.no_duplicates() && (devices@.contains(dev)
            <==> old(takhti)@.tty->0.devices.contains_key(dev))),
{
    if old(takhti)@.tty is Some {
        let devices = action->Pause_devices;
        assert(devices@.to_set().contains(dev) <==> devices@.contains(dev));
    }
}

/// Switching the session back activates every device, and starts every output
/// afresh: each is queued, with a callback pending that is asked for where there
/// was none, and hands back the timer that it awaited. Nothing else changes.
pub proof fn an_activation_starts_every_output(
    takhti: &mut Takhti,
    action: SessionAction,
    node: DrmNode,
    crtc: u32,
)
    requires
        call_ensures(Takhti::on_session_event, (takhti, SessionEvent::ActivateSession), action),
        old(takhti)@.tty is Some,
    ensures
        action matches SessionAction::Activate { devices, outputs } && {
            let key = SurfaceKey { node, crtc };
            let named = exists|i: int| 0 <= i < outputs@.len() && (#[trigger] outputs@[i]).key == key;
            &&& devices@.no_duplicates()
            &&& devices@.contains(node.dev) <==> old(takhti)@.tty->0.devices.contains_key(node.dev)
            &&& final(takhti)@.differs_in_redraws(old(takhti)@)
            &&& named <==> old(takhti)@.connected(node, crtc)
            &&& forall|i: int, j: int|
                0 <= i < j < outputs@.len() ==> (#[trigger] outputs@[i]).key != (
                #[trigger] outputs@[j]).key
            &&& named ==> final(takhti)@.output_at(node, crtc).redraw_state is Queued
            &&& final(takhti)@.tty->0.callbacks.contains(key) <==> named
                || old(takhti)@.tty->0.callbacks.contains(key)
            &&& forall|i: int|
                0 <= i < outputs@.len() && (#[trigger] outputs@[i]).key == key ==> {
                    let was = old(takhti)@.output_at(node, crtc).redraw_state;
                    &&& outputs@[i].schedule <==> !old(takhti)@.tty->0.callbacks.contains(key)
                    &&& outputs@[i].timer matches Some(token) ==> was
                        == RedrawState::WaitingForEstimatedVBlank(token) || was
                        == RedrawState::WaitingForEstimatedVBlankAndQueued(token)
                    &&& outputs@[i].timer is None ==> was is Idle || was is Queued || was
                        is WaitingForVBlank
                }
        },
{
    let key = SurfaceKey { node, crtc };
    let before = old(takhti)@;
    let after = final(takhti)@;
    let tty = before.tty->0;
    let devices = action->Activate_devices;
    let outputs = action->Activate_outputs;
    let states = tty.with_states(tty.keys(), on_activation());
    crate::state::lemma_with_states(tty, tty.keys(), on_activation());
    assert(after.tty->0.devices == states.devices);
    assert forall|n: DrmNode, c: u32| #[trigger]
        after.connected(n, c) <==> before.connected(n, c) by {
        assert(states.has(SurfaceKey { node: n, crtc: c }) <==> tty.has(
            SurfaceKey { node: n, crtc: c },
        ));
    }
    assert forall|n: DrmNode, c: u32| #[trigger] after.connected(n, c) implies ({
        let now = after.output_at(n, c);
        let then = before.output_at(n, c);
        &&& now.output == then.output
        &&& now.name == then.name
        &&& now.connector == then.connector
        &&& now.pending_mode == then.pending_mode
        &&& now.global == then.global
    }) by {
        let other = SurfaceKey { node: n, crtc: c };
        assert(tty.has(other));
        assert(states.surface(other).output == tty.surface(other).output);
    }
    let keys = keys_of(outputs@);
    assert(devices@.to_set().contains(node.dev) <==> devices@.contains(node.dev));
    assert(keys.to_set().contains(key) <==> keys.contains(key));
    assert(tty.keys().contains(key) <==> tty.has(key));
    if keys.contains(key) {
        let i = choose|i: int| 0 <= i < keys.len() && keys[i] == key;
        assert(outputs@[i].key == key);
    }
    if exists|i: int| 0 <= i < outputs@.len() && (#[trigger] outputs@[i]).key == key {
        let i = choose|i: int| 0 <= i < outputs@.len() && (#[trigger] outputs@[i]).key == key;
        assert(keys[i] == key);
    }
    assert forall|i: int, j: int| 0 <= i < j < outputs@.len() implies (#[trigger] outputs@[i]).key
        != (#[trigger] outputs@[j]).key by {
        assert(keys[i] != keys[j]);
    }
    if tty.has(key) {
        assert(states.surface(key).redraw_state == RedrawState::activated());
    }
}

/// Without the session's backend, session events come to nothing, and there is
/// no terminal to switch to.
pub proof fn other_backends_have_no_session(
    takhti: &mut Takhti,
    event: SessionEvent,
    action: SessionAction,
)
    requires
        call_ensures(Takhti::on_session_event, (takhti, event), action),
        old(takhti)@.tty is None,
    ensures
        action is Nothing,
        final(takhti)@ == old(takhti)@,
{
}

/// The terminal that is asked for is the one that was named.
pub proof fn the_named_terminal_is_asked_for(takhti: Takhti, vt: i32, request: Option<i32>)
    requires
        call_ensures(Takhti::change_vt, (&takhti, vt), request),
    ensures
        request matches Some(asked) ==> asked == vt,
        request is Some <==> takhti.backend is Tty,
{
}

} // verus!
