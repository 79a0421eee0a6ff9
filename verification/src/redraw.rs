//! The per-output redraw state machine.
//!
//! Nothing repaints unless a redraw was queued, and an output that already has
//! a repaint under way coalesces further requests until that one is over.

use vstd::prelude::*;

use calloop::RegistrationToken;

verus! {

/// The event loop's name for a registered source. It is carried through
/// unread: a pending estimated-vblank timer is known by its token.
#[verifier::external_type_specification]
#[verifier::external_body]
pub struct ExRegistrationToken(calloop::RegistrationToken);

/// Where one output stands in its redraw cycle.
#[derive(Clone, Copy, Debug, PartialEq, Eq)]
pub enum RedrawState {
    /// Nothing scheduled; the output repaints only on the next request.
    Idle,
    /// A repaint is scheduled as an event-loop idle callback. Where the callback
    /// found the device paused, the return of the session schedules another.
    Queued,
    /// A frame was queued for scanout; awaiting the vblank that presents it.
    WaitingForVBlank { redraw_needed: bool },
    /// The last render had no damage, so nothing was queued for scanout; a
    /// timer approximates the missed vblank.
    WaitingForEstimatedVBlank(RegistrationToken),
    /// Same, but a redraw was requested while waiting.
    WaitingForEstimatedVBlankAndQueued(RegistrationToken),
}

/// How rendering an output went.
#[derive(Clone, Copy, Debug, PartialEq, Eq, Structural)]
pub enum RenderOutcome {
    /// There was no renderer to be had.
    NoRenderer,
    /// Rendering failed.
    Failed,
    /// The frame was rendered.
    Rendered {
        /// Nothing was damaged, so there is nothing to show.
        empty: bool,
        /// The hardware cannot be made to wait for the frame by itself.
        needs_sync: bool,
        /// The frame is one that was composited, not a client's own buffer.
        swapchain: bool,
    },
}

impl Default for RedrawState {
    fn default() -> (state: Self)
        ensures
            state is Idle,
    {
        RedrawState::Idle
    }
}

impl RedrawState {
    /// The state after a redraw request.
    pub open spec fn requested(self) -> RedrawState {
        match self {
            RedrawState::Idle => RedrawState::Queued,
            RedrawState::Queued => RedrawState::Queued,
            RedrawState::WaitingForVBlank { .. } => RedrawState::WaitingForVBlank {
                redraw_needed: true,
            },
            RedrawState::WaitingForEstimatedVBlank(token) => {
                RedrawState::WaitingForEstimatedVBlankAndQueued(token)
            },
            RedrawState::WaitingForEstimatedVBlankAndQueued(token) => {
                RedrawState::WaitingForEstimatedVBlankAndQueued(token)
            },
        }
    }

    /// Whether a redraw request in this state asks for an idle callback, given
    /// whether one is pending for the output.
    pub open spec fn asks_on_request(self, pending: bool) -> bool {
        self is Idle && !pending
    }

    /// Whether an idle callback in this state renders the output. A redraw may
    /// have been called off since it was scheduled.
    pub open spec fn renders_on_callback(self) -> bool {
        self is Queued
    }

    /// The state after the return of the session: frames in flight were lost,
    /// and a redraw is requested afresh.
    pub open spec fn activated() -> RedrawState {
        RedrawState::Idle.requested()
    }

    /// The state after a vblank: a frame in flight has been presented, and a
    /// redraw that was requested meanwhile is queued at once.
    pub open spec fn presented(self) -> RedrawState {
        match self {
            RedrawState::WaitingForVBlank { redraw_needed: true } => RedrawState::Queued,
            RedrawState::WaitingForVBlank { redraw_needed: false } => RedrawState::Idle,
            other => other,
        }
    }

    /// Whether a vblank in this state asks for another repaint.
    pub open spec fn repaints_on_vblank(self) -> bool {
        self == (RedrawState::WaitingForVBlank { redraw_needed: true })
    }

    /// Whether a vblank in this state asks for an idle callback, given whether
    /// one is pending for the output.
    pub open spec fn asks_on_vblank(self, pending: bool) -> bool {
        self.repaints_on_vblank() && !pending
    }

    /// The state after the estimated-vblank timer fired.
    pub open spec fn estimated(self) -> RedrawState {
        match self {
            RedrawState::WaitingForEstimatedVBlank(_) => RedrawState::Idle,
            RedrawState::WaitingForEstimatedVBlankAndQueued(_) => RedrawState::Queued,
            other => other,
        }
    }

    /// Whether the estimated-vblank timer renders at once in this state.
    pub open spec fn renders_on_estimate(self) -> bool {
        self is WaitingForEstimatedVBlankAndQueued
    }

    /// The estimated-vblank timer that is pending in this state.
    pub open spec fn timer(self) -> Option<RegistrationToken> {
        match self {
            RedrawState::WaitingForEstimatedVBlank(token) => Some(token),
            RedrawState::WaitingForEstimatedVBlankAndQueued(token) => Some(token),
            _ => None,
        }
    }

    /// The state after a render without damage: a pending timer is reused,
    /// and without one the output is idle until a timer is registered.
    pub open spec fn undamaged(self) -> RedrawState {
        match self.timer() {
            Some(token) => RedrawState::WaitingForEstimatedVBlank(token),
            None => RedrawState::Idle,
        }
    }

    /// Whether a render without damage in this state asks for a timer.
    pub open spec fn wants_timer(self) -> bool {
        self.timer() is None
    }

    /// The state after a render. With a frame to show it is left until the
    /// outcome of queueing that frame is known.
    pub open spec fn after_render(self, outcome: RenderOutcome) -> RedrawState {
        match outcome {
            RenderOutcome::Rendered { empty, .. } => if empty {
                self.undamaged()
            } else {
                self
            },
            _ => RedrawState::Idle,
        }
    }

    /// The state once the outcome of registering a timer is known.
    pub open spec fn timer_registered(token: Option<RegistrationToken>) -> RedrawState {
        match token {
            Some(token) => RedrawState::WaitingForEstimatedVBlank(token),
            None => RedrawState::Idle,
        }
    }

    /// The state once the outcome of queueing a frame for scanout is known.
    pub open spec fn frame_queued(accepted: bool) -> RedrawState {
        if accepted {
            RedrawState::WaitingForVBlank { redraw_needed: false }
        } else {
            RedrawState::Idle
        }
    }

    /// Requests a redraw, given whether an idle callback is pending for the
    /// output. The result says whether one has to be scheduled.
    pub fn request(&mut self, pending: bool) -> (schedule: bool)
        ensures
            *final(self) == old(self).requested(),
            schedule == old(self).asks_on_request(pending),
    {
        let state: RedrawState = *self;
        match state {
            RedrawState::Idle => {
                *self = RedrawState::Queued;
                !pending
            },
            RedrawState::Queued => false,
            RedrawState::WaitingForVBlank { .. } => {
                *self = RedrawState::WaitingForVBlank { redraw_needed: true };
                false
            },
            RedrawState::WaitingForEstimatedVBlank(token)
            | RedrawState::WaitingForEstimatedVBlankAndQueued(token) => {
                *self = RedrawState::WaitingForEstimatedVBlankAndQueued(token);
                false
            },
        }
    }

    /// Takes in a vblank, given whether an idle callback is pending for the
    /// output. The result says whether one has to be scheduled. A stale vblank
    /// (one that no frame is waiting for) disturbs nothing.
    pub fn vblank(&mut self, pending: bool) -> (schedule: bool)
        ensures
            *final(self) == old(self).presented(),
            schedule == old(self).asks_on_vblank(pending),
    {
        match *self {
            RedrawState::WaitingForVBlank { redraw_needed } => {
                *self = RedrawState::Idle;
                if redraw_needed {
                    self.request(pending)
                } else {
                    false
                }
            },
            _ => false,
        }
    }

    /// Takes in the estimated-vblank timer. The result says whether the
    /// output is to be rendered right away.
    pub fn estimated_vblank(&mut self) -> (render: bool)
        ensures
            *final(self) == old(self).estimated(),
            render == old(self).renders_on_estimate(),
    {
        match *self {
            RedrawState::WaitingForEstimatedVBlank(_) => {
                *self = RedrawState::Idle;
                false
            },
            RedrawState::WaitingForEstimatedVBlankAndQueued(_) => {
                *self = RedrawState::Queued;
                true
            },
            _ => false,
        }
    }

    /// Takes in a render without damage. The result says whether a timer has
    /// to be registered to stand in for the vblank that will not come.
    pub fn no_damage(&mut self) -> (register: bool)
        ensures
            *final(self) == old(self).undamaged(),
            register == old(self).wants_timer(),
    {
        match self.pending_timer() {
            Some(token) => {
                *self = RedrawState::WaitingForEstimatedVBlank(token);
                false
            },
            None => {
                *self = RedrawState::Idle;
                true
            },
        }
    }

    /// The estimated-vblank timer that is pending, if any.
    pub fn pending_timer(&self) -> (token: Option<RegistrationToken>)
        ensures
            token == self.timer(),
    {
        match *self {
            RedrawState::WaitingForEstimatedVBlank(token)
            | RedrawState::WaitingForEstimatedVBlankAndQueued(token) => Some(token),
            _ => None,
        }
    }
}

/// A request asks for an idle callback exactly where the output was idle and
/// none is pending. Whatever was under way stays under way: a frame in flight is
/// still awaited, and so is a timer.
pub proof fn requests_leave_what_is_under_way(state: &mut RedrawState, pending: bool, schedule: bool)
    requires
        call_ensures(RedrawState::request, (state, pending), schedule),
    ensures
        schedule <==> *old(state) is Idle && !pending,
        *old(state) is Idle || *old(state) is Queued <==> *final(state) is Queued,
        *old(state) is WaitingForVBlank <==> *final(state) is WaitingForVBlank,
        *final(state) matches RedrawState::WaitingForVBlank { redraw_needed } ==> redraw_needed,
        *old(state) matches RedrawState::WaitingForEstimatedVBlank(token) ==> *final(state)
            == RedrawState::WaitingForEstimatedVBlankAndQueued(token),
        *old(state) is WaitingForEstimatedVBlankAndQueued ==> *final(state) == *old(state),
{
}

/// A vblank ends the wait for it. Where a redraw was wanted meanwhile the output
/// is queued, and asks for an idle callback unless one is pending; else it goes
/// idle. To an output that awaits none, a vblank does nothing.
pub proof fn a_vblank_ends_its_wait(state: &mut RedrawState, pending: bool, schedule: bool)
    requires
        call_ensures(RedrawState::vblank, (state, pending), schedule),
    ensures
        *old(state) matches RedrawState::WaitingForVBlank { redraw_needed } ==> {
            &&& redraw_needed <==> *final(state) is Queued
            &&& !redraw_needed <==> *final(state) is Idle
            &&& schedule <==> redraw_needed && !pending
        },
        !(*old(state) is WaitingForVBlank) ==> *final(state) == *old(state) && !schedule,
{
}

/// The estimated-vblank timer ends the wait for it, and renders exactly where a
/// redraw was requested meanwhile. Any other state it leaves alone.
pub proof fn a_timer_ends_its_wait(state: &mut RedrawState, render: bool)
    requires
        call_ensures(RedrawState::estimated_vblank, (state,), render),
    ensures
        render <==> *old(state) is WaitingForEstimatedVBlankAndQueued,
        render ==> *final(state) is Queued,
        *old(state) is WaitingForEstimatedVBlank ==> *final(state) is Idle,
        *old(state) is Idle || *old(state) is Queued || *old(state) is WaitingForVBlank
            ==> *final(state) == *old(state),
{
}

/// After a render without damage a timer that is pending is awaited again, under
/// its own token and with nothing wanted; without one the output is idle, and
/// one has to be registered.
pub proof fn a_pending_timer_is_reused(state: &mut RedrawState, register: bool)
    requires
        call_ensures(RedrawState::no_damage, (state,), register),
    ensures
        *old(state) matches RedrawState::WaitingForEstimatedVBlank(token) ==> *final(state)
            == RedrawState::WaitingForEstimatedVBlank(token),
        *old(state) matches RedrawState::WaitingForEstimatedVBlankAndQueued(token)
            ==> *final(state) == RedrawState::WaitingForEstimatedVBlank(token),
        *old(state) is Idle || *old(state) is Queued || *old(state) is WaitingForVBlank
            ==> *final(state) is Idle,
        register <==> *final(state) is Idle,
{
}

/// The timer that is pending is the one that the state awaits.
pub proof fn the_awaited_timer_is_pending(state: RedrawState, token: Option<RegistrationToken>)
    requires
        call_ensures(RedrawState::pending_timer, (&state,), token),
    ensures
        token matches Some(token) ==> state == RedrawState::WaitingForEstimatedVBlank(token)
            || state == RedrawState::WaitingForEstimatedVBlankAndQueued(token),
        token is None ==> state is Idle || state is Queued || state is WaitingForVBlank,
{
}

} // verus!
