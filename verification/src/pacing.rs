//! What holds of an output's redraws over time.
//!
//! An output is followed by its place: a device and a scanout engine there. It
//! may be unplugged and plugged in again any number of times, while the event
//! loop still holds an idle callback from before. A vblank that comes while a
//! frame is in flight is taken to be that frame's.

use vstd::prelude::*;

use calloop::RegistrationToken;

use crate::connectors::ConnectPlan;
use crate::mode::ConnectorInfo;
use crate::redraw::{RedrawState, RenderOutcome};
use crate::state::{SurfaceKey, TakhtiView};

verus! {

/// What came of a render that was started.
pub enum Rendered {
    /// The device was paused, and nothing was rendered.
    Paused,
    /// It was carried through. Where it asked for a timer, one was registered
    /// or not; where there was a frame to show, it was queued or refused.
    Done { outcome: RenderOutcome, registered: Option<RegistrationToken>, accepted: bool },
}

/// What happens to an output.
pub enum Happening {
    /// A redraw is requested.
    Request,
    /// The idle callback runs, and renders the output if a redraw is wanted.
    Callback(Rendered),
    /// A vblank comes.
    VBlank,
    /// The estimated-vblank timer fires, and renders if a redraw was
    /// requested.
    Timer(Rendered),
    /// The session returns.
    Activation,
    /// The output is unplugged, and one is plugged in in its place.
    Replug,
}

/// An output's redraw state, and what is under way for it.
pub struct Pace {
    pub state: RedrawState,
    /// Whether an idle callback is put down as pending.
    pub pending: bool,
    /// Idle callbacks that the event loop will run.
    pub callbacks: nat,
    /// Frames that wait for their vblank.
    pub frames: nat,
    /// The estimated-vblank timer that will fire.
    pub timer: Option<RegistrationToken>,
}

impl Pace {
    /// An output that was just connected in a place where none was.
    pub open spec fn initial() -> Pace {
        Pace { state: RedrawState::Idle, pending: false, callbacks: 0, frames: 0, timer: None }
    }

    /// Whether this can happen: a callback has to be there to run, and a timer
    /// to fire.
    pub open spec fn possible(self, happening: Happening) -> bool {
        match happening {
            Happening::Callback(_) => self.callbacks > 0,
            Happening::Timer(_) => self.timer is Some,
            _ => true,
        }
    }

    /// With one more idle callback, if so asked.
    pub open spec fn scheduled(self, asked: bool) -> Pace {
        if asked {
            Pace { pending: true, callbacks: self.callbacks + 1, ..self }
        } else {
            self
        }
    }

    /// After a render in the present state.
    pub open spec fn rendered(self, rendered: Rendered) -> Pace {
        match rendered {
            Rendered::Paused => self,
            Rendered::Done { outcome, registered, accepted } => {
                let after = Pace { state: self.state.after_render(outcome), ..self };
                match outcome {
                    RenderOutcome::Rendered { empty, .. } => if !empty {
                        Pace {
                            state: RedrawState::frame_queued(accepted),
                            frames: if accepted {
                                self.frames + 1
                            } else {
                                self.frames
                            },
                            ..after
                        }
                    } else if self.state.wants_timer() {
                        Pace {
                            state: RedrawState::timer_registered(registered),
                            timer: registered,
                            ..after
                        }
                    } else {
                        after
                    },
                    _ => after,
                }
            },
        }
    }

    /// After something that can happen.
    pub open spec fn after(self, happening: Happening) -> Pace {
        match happening {
            Happening::Request => Pace { state: self.state.requested(), ..self }.scheduled(
                self.state.asks_on_request(self.pending),
            ),
            Happening::Callback(rendered) => {
                let started = Pace {
                    pending: false,
                    callbacks: (self.callbacks - 1) as nat,
                    ..self
                };
                if self.state.renders_on_callback() {
                    started.rendered(rendered)
                } else {
                    started
                }
            },
            Happening::VBlank => Pace {
                state: self.state.presented(),
                frames: 0,
                ..self
            }.scheduled(self.state.asks_on_vblank(self.pending)),
            Happening::Timer(rendered) => {
                let fired = Pace { state: self.state.estimated(), timer: None, ..self };
                if self.state.renders_on_estimate() {
                    fired.rendered(rendered)
                } else {
                    fired
                }
            },
            Happening::Activation => Pace {
                state: RedrawState::activated(),
                frames: 0,
                timer: None,
                ..self
            }.scheduled(RedrawState::Idle.asks_on_request(self.pending)),
            Happening::Replug => Pace {
                state: RedrawState::Idle,
                frames: 0,
                timer: None,
                ..self
            },
        }
    }

    /// Whether the redraw state, and what is put down as pending, tell what is
    /// under way. In an idle output a callback may be left from before it was
    /// plugged in.
    pub open spec fn tells(self) -> bool {
        &&& self.callbacks == if self.pending {
            1nat
        } else {
            0nat
        }
        &&& match self.state {
            RedrawState::Idle | RedrawState::Queued => self.frames == 0 && self.timer is None,
            RedrawState::WaitingForVBlank { .. } => !self.pending && self.frames == 1
                && self.timer is None,
            RedrawState::WaitingForEstimatedVBlank(token) => !self.pending && self.frames == 0
                && self.timer == Some(token),
            RedrawState::WaitingForEstimatedVBlankAndQueued(token) => !self.pending && self.frames
                == 0 && self.timer == Some(token),
        }
    }

    /// How much is under way.
    pub open spec fn under_way(self) -> nat {
        self.callbacks + self.frames + if self.timer is Some {
            1nat
        } else {
            0nat
        }
    }

    /// Whether this is what the compositor has of a connected output.
    pub open spec fn is_of(self, takhti: TakhtiView, key: SurfaceKey) -> bool {
        &&& takhti.has(key)
        &&& takhti.surface(key).redraw_state == self.state
        &&& takhti.pending(key) == self.pending
    }
}

/// Whether these can happen one after the other.
pub open spec fn possible_course(course: Seq<Happening>) -> bool
    decreases course.len(),
{
    course.len() > 0 ==> possible_course(course.drop_last()) && run(course.drop_last()).possible(
        course.last(),
    )
}

/// An output to which these have happened, one after the other.
pub open spec fn run(course: Seq<Happening>) -> Pace
    decreases course.len(),
{
    if course.len() == 0 {
        Pace::initial()
    } else {
        run(course.drop_last()).after(course.last())
    }
}

/// At most one repaint is under way for an output at any time: an idle
/// callback, a frame in flight or an estimated vblank. The redraw state tells
/// which.
pub proof fn at_most_one_repaint_is_under_way(course: Seq<Happening>)
    requires
        possible_course(course),
    ensures
        run(course).tells(),
        run(course).under_way() <= 1,
    decreases course.len(),
{
    if course.len() > 0 {
        at_most_one_repaint_is_under_way(course.drop_last());
    }
}

/// A second request right after a first one changes nothing, and schedules
/// nothing.
pub proof fn requests_are_idempotent(state: RedrawState)
    ensures
        state.requested().requested() == state.requested(),
        !(state.requested() is Idle),
{
}

/// The state after a number of requests.
pub open spec fn requested_times(state: RedrawState, n: nat) -> RedrawState
    decreases n,
{
    if n == 0 {
        state
    } else {
        requested_times(state, (n - 1) as nat).requested()
    }
}

/// However many requests arrive while a frame is in flight, its vblank brings
/// one repaint, and none if there were no requests.
pub proof fn requests_coalesce_until_the_vblank(n: nat)
    ensures
        ({
            let state = requested_times(RedrawState::frame_queued(true), n);
            &&& state.repaints_on_vblank() <==> n > 0
            &&& state.presented() == if n > 0 {
                RedrawState::Queued
            } else {
                RedrawState::Idle
            }
        }),
    decreases n,
{
    if n > 0 {
        requests_coalesce_until_the_vblank((n - 1) as nat);
    }
}

/// However many requests arrive while an estimated vblank is awaited, it
/// renders once, and not at all if there were no requests.
pub proof fn requests_coalesce_until_the_estimate(token: RegistrationToken, n: nat)
    ensures
        ({
            let state = requested_times(RedrawState::timer_registered(Some(token)), n);
            &&& state.renders_on_estimate() <==> n > 0
            &&& state.estimated() == if n > 0 {
                RedrawState::Queued
            } else {
                RedrawState::Idle
            }
            &&& state.timer() == Some(token)
        }),
    decreases n,
{
    if n > 0 {
        requests_coalesce_until_the_estimate(token, (n - 1) as nat);
    }
}

/// Nothing repaints an idle output unless a redraw is requested or the session
/// returns, not even a callback from before it was plugged in.
pub proof fn an_idle_output_stays_idle(pace: Pace, happening: Happening)
    requires
        pace.tells(),
        pace.state is Idle,
        pace.possible(happening),
        !(happening is Request),
        !(happening is Activation),
    ensures
        !renders(pace, happening),
        pace.after(happening).state is Idle,
        pace.after(happening).callbacks <= pace.callbacks,
        pace.after(happening).frames == 0,
        pace.after(happening).timer is None,
{
}

/// A queued output has its idle callback: one is pending, unless it ran while
/// the device was paused.
pub proof fn a_queued_output_has_its_callback(pace: Pace, happening: Happening)
    requires
        pace.tells(),
        pace.state is Queued ==> pace.callbacks == 1,
        pace.possible(happening),
        !(happening matches Happening::Callback(rendered) && rendered is Paused),
        !(happening matches Happening::Timer(rendered) && rendered is Paused),
    ensures
        pace.after(happening).state is Queued ==> pace.after(happening).callbacks == 1,
{
}

/// Whether a redraw is wanted that has not been rendered yet.
pub open spec fn wants_redraw(state: RedrawState) -> bool {
    match state {
        RedrawState::Idle => false,
        RedrawState::Queued => true,
        RedrawState::WaitingForVBlank { redraw_needed } => redraw_needed,
        RedrawState::WaitingForEstimatedVBlank(_) => false,
        RedrawState::WaitingForEstimatedVBlankAndQueued(_) => true,
    }
}

/// Whether the output is rendered, or rendering it is at least attempted.
pub open spec fn renders(pace: Pace, happening: Happening) -> bool {
    match happening {
        Happening::Callback(rendered) => pace.state.renders_on_callback() && !(rendered is Paused),
        Happening::Timer(rendered) => pace.state.renders_on_estimate() && !(rendered is Paused),
        _ => false,
    }
}

/// A request is not lost: whatever happens, it stands until the output is
/// rendered or unplugged.
pub proof fn a_request_stands_until_the_output_renders(pace: Pace, happening: Happening)
    requires
        pace.tells(),
        pace.possible(happening),
    ensures
        wants_redraw(pace.after(Happening::Request).state),
        wants_redraw(pace.state) && !renders(pace, happening) && !(happening is Replug)
            ==> wants_redraw(pace.after(happening).state),
{
}

/// The return of the session gets an output going again, whatever was lost
/// with the devices: one callback is pending, whether or not one was before,
/// and nothing else is under way.
pub proof fn the_return_of_the_session_repaints(pace: Pace)
    requires
        pace.tells(),
    ensures
        ({
            let after = pace.after(Happening::Activation);
            after.state is Queued && after.callbacks == 1 && after.under_way() == 1
        }),
{
}

/// The compositor keeps the pace: each of its operations does to an output's
/// redraw state, and to what it has put down as pending, what happens here.
pub proof fn the_compositor_keeps_the_pace(takhti: TakhtiView, key: SurfaceKey, pace: Pace)
    requires
        pace.is_of(takhti, key),
    ensures
        pace.after(Happening::Request).is_of(crate::tty::with_request(takhti, key), key),
        pace.after(Happening::VBlank).is_of(crate::tty::with_vblank(takhti, key), key),
        pace.after(Happening::Callback(Rendered::Paused)).is_of(
            crate::tty::with_callback_run(takhti, key),
            key,
        ),
        pace.after(Happening::Timer(Rendered::Paused)).is_of(
            crate::tty::with_estimate(takhti, key),
            key,
        ),
        pace.after(Happening::Activation).is_of(
            TakhtiView {
                tty: Some(crate::session::with_activation(takhti.tty->0, takhti.tty->0.keys())),
                ..takhti
            },
            key,
        ),
        pace.after(Happening::Request).is_of(crate::tty::all_requested(takhti), key),
{
    let tty = takhti.tty->0;
    assert(tty.keys().contains(key));
    crate::state::lemma_with_states(tty, tty.keys(), crate::session::on_activation());
    crate::state::lemma_with_states(tty, tty.keys(), crate::tty::on_request());
    let activated = tty.with_states(tty.keys(), crate::session::on_activation());
    let requested = tty.with_states(tty.keys(), crate::tty::on_request());
    assert(activated.has(key) && requested.has(key));
    assert(activated.surface(key).redraw_state == RedrawState::activated());
    assert(requested.surface(key).redraw_state == tty.surface(key).redraw_state.requested());
    assert(crate::session::with_activation(tty, tty.keys()).devices == activated.devices);
    assert(crate::tty::with_requests(tty, tty.keys()).devices == requested.devices);
    assert(crate::tty::asking(tty, tty.keys()).contains(key) <==> pace.state.asks_on_request(
        pace.pending,
    ));
}

/// A render keeps the pace too: the steps in which it is taken in come to what
/// happens here at once.
pub proof fn renders_keep_the_pace(
    takhti: TakhtiView,
    key: SurfaceKey,
    pace: Pace,
    outcome: RenderOutcome,
    registered: Option<RegistrationToken>,
    accepted: bool,
)
    requires
        pace.is_of(takhti, key),
    ensures
        pace.rendered(Rendered::Done { outcome, registered, accepted }).is_of(
            {
                let rendered = crate::tty::with_render(takhti, key, outcome);
                match outcome {
                    RenderOutcome::Rendered { empty, .. } => if !empty {
                        rendered.with_state(key, RedrawState::frame_queued(accepted))
                    } else if pace.state.wants_timer() {
                        rendered.with_state(key, RedrawState::timer_registered(registered))
                    } else {
                        rendered
                    },
                    _ => rendered,
                }
            },
            key,
        ),
{
}

/// So do unplugging an output and plugging one in in its place: a callback that
/// was pending still is.
pub proof fn replugging_keeps_the_pace(
    takhti: TakhtiView,
    key: SurfaceKey,
    pace: Pace,
    connector: ConnectorInfo,
    plan: ConnectPlan,
    output: u64,
    global: u64,
)
    requires
        pace.is_of(takhti, key),
    ensures
        pace.after(Happening::Replug).is_of(
            crate::connectors::with_connected(
                crate::connectors::with_disconnected(takhti, key),
                key,
                connector,
                plan,
                output,
                global,
            ),
            key,
        ),
{
}

/// A request for every output reaches every output.
pub proof fn a_request_for_all_reaches_every_output(takhti: TakhtiView, key: SurfaceKey)
    requires
        takhti.has(key),
    ensures
        crate::tty::all_requested(takhti).has(key),
        wants_redraw(crate::tty::all_requested(takhti).surface(key).redraw_state),
{
    let tty = takhti.tty->0;
    crate::state::lemma_with_states(tty, tty.keys(), crate::tty::on_request());
    assert(tty.keys().contains(key));
    let requested = tty.with_states(tty.keys(), crate::tty::on_request());
    assert(requested.has(key));
    assert(requested.surface(key).redraw_state == tty.surface(key).redraw_state.requested());
    assert(crate::tty::with_requests(tty, tty.keys()).devices == requested.devices);
}

/// Requesting a repaint of every output twice is requesting it once: the
/// second request changes nothing, and schedules nothing.
pub proof fn requests_for_all_are_idempotent(takhti: TakhtiView, schedule: Seq<SurfaceKey>)
    requires
        crate::tty::lists_asking(crate::tty::all_requested(takhti), schedule),
    ensures
        schedule.len() == 0,
        crate::tty::all_requested(crate::tty::all_requested(takhti)) == crate::tty::all_requested(
            takhti,
        ),
{
    let once = crate::tty::all_requested(takhti);
    if schedule.len() > 0 {
        let key = schedule[0];
        assert(schedule.contains(key));
        assert(once.has(key));
        let tty = takhti.tty->0;
        crate::state::lemma_with_states(tty, tty.keys(), crate::tty::on_request());
        let requested = tty.with_states(tty.keys(), crate::tty::on_request());
        assert(crate::tty::with_requests(tty, tty.keys()).devices == requested.devices);
        assert(requested.has(key));
        assert(takhti.has(key));
        a_request_for_all_reaches_every_output(takhti, key);
    }
    if takhti.tty is Some {
        let before = takhti.tty->0;
        let first = once.tty->0;
        let second = first.with_states(first.keys(), crate::tty::on_request());
        let requested = before.with_states(before.keys(), crate::tty::on_request());
        assert(first.devices == requested.devices);
        crate::state::lemma_with_states(before, before.keys(), crate::tty::on_request());
        assert forall|dev: u64| first.devices.contains_key(dev) implies #[trigger] second.devices[dev]
            == first.devices[dev] by {
            assert forall|crtc: u32|
                first.devices[dev].surfaces.contains_key(crtc) implies #[trigger] second.devices[dev].surfaces[crtc]
                == first.devices[dev].surfaces[crtc] by {
                let key = SurfaceKey { node: crate::node::DrmNode { dev }, crtc };
                assert(first.has(key));
                assert(requested.has(key));
                assert(before.has(key));
                assert(first.surface(key) == requested.surface(key));
                assert(before.keys().contains(key));
                assert(first.keys().contains(key));
                assert(first.surface(key).redraw_state == before.surface(
                    key,
                ).redraw_state.requested());
                requests_are_idempotent(before.surface(key).redraw_state);
            }
            assert(second.devices[dev].surfaces =~= first.devices[dev].surfaces);
        }
        assert(second.devices =~= first.devices);
        assert forall|key: SurfaceKey| !crate::tty::asking(first, first.keys()).contains(key) by {
            if first.has(key) {
                assert(requested.has(key));
                assert(before.has(key));
                assert(before.keys().contains(key));
                assert(first.surface(key) == requested.surface(key));
                requests_are_idempotent(before.surface(key).redraw_state);
            }
        }
        assert(first.callbacks.union(crate::tty::asking(first, first.keys())) =~= first.callbacks);
    }
}

/// Outputs redraw independently: what happens to one leaves the others as they
/// are.
pub proof fn outputs_redraw_independently(
    takhti: TakhtiView,
    key: SurfaceKey,
    state: RedrawState,
    other: SurfaceKey,
)
    requires
        takhti.has(key),
        takhti.has(other),
        other != key,
    ensures
        takhti.with_state(key, state).has(other),
        takhti.with_state(key, state).surface(other) == takhti.surface(other),
        takhti.with_state(key, state).surface(key).redraw_state == state,
{
}

} // verus!
