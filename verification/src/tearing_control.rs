//! The tearing-control protocol: a client's hint, per surface, whether tearing
//! is acceptable for its content.
//!
//! The global is passive. It only records hints, and a hint counts at once,
//! without waiting for the surface's next commit.

use vstd::prelude::*;

verus! {

/// The version of the protocol.
pub const VERSION: u32 = 1;

/// What is kept for a surface.
#[derive(Clone, Copy, Debug, PartialEq, Eq, Structural)]
pub struct TearingControlSurfaceData {
    /// The surface has a control already. It is an error to ask for another.
    pub has_control: bool,
    /// The hint: whether tearing is acceptable.
    pub prefer_tearing: bool,
}

impl Default for TearingControlSurfaceData {
    fn default() -> (data: Self)
        ensures
            data == (TearingControlSurfaceData { has_control: false, prefer_tearing: false }),
    {
        TearingControlSurfaceData { has_control: false, prefer_tearing: false }
    }
}

/// The global that hands out controls.
#[derive(Clone, Copy, Debug, PartialEq, Eq, Structural)]
pub struct TearingControlManagerState {
    /// The version to advertise.
    pub version: u32,
}

impl TearingControlManagerState {
    /// The global to advertise.
    pub fn new() -> (manager: Self)
        ensures
            manager.version == VERSION,
    {
        TearingControlManagerState { version: VERSION }
    }
}

/// What belongs to a control: the surface that it controls.
#[derive(Clone, Copy, Debug, PartialEq, Eq, Structural)]
pub struct TearingControlData {
    pub surface: u64,
}

/// Tells whether a surface's client hinted that tearing is acceptable for its
/// content. It is not for a surface of which nothing is kept.
pub fn surface_prefers_tearing(data: Option<TearingControlSurfaceData>) -> (prefers: bool)
    ensures
        prefers == (data matches Some(data) && data.prefer_tearing),
{
    match data {
        Some(data) => data.prefer_tearing,
        None => false,
    }
}

/// What a client can ask of the global.
#[derive(Clone, Copy, Debug, PartialEq, Eq, Structural)]
pub enum ManagerRequest {
    /// A control for a surface.
    GetTearingControl { surface: u64 },
    /// To be rid of the global; what was handed out stays.
    Destroy,
    /// Anything else.
    Unknown,
}

/// What a control can be asked to be.
#[derive(Clone, Copy, Debug, PartialEq, Eq, Structural)]
pub enum PresentationHint {
    /// Tearing is not acceptable.
    Vsync,
    /// Tearing is acceptable.
    Async,
    /// A hint that is not known.
    Unknown(u32),
}

/// What a client can ask of a control.
#[derive(Clone, Copy, Debug, PartialEq, Eq, Structural)]
pub enum ControlRequest {
    SetPresentationHint { hint: PresentationHint },
    /// To be rid of the control.
    Destroy,
    /// Anything else.
    Unknown,
}

/// What a request to the global comes to.
#[derive(Clone, Copy, Debug, PartialEq, Eq, Structural)]
pub enum ManagerReply {
    /// Nothing.
    Nothing,
    /// A control is handed out. It is handed out even where the client has to
    /// be told that the surface has one already: its name is taken by then.
    Control { control: TearingControlData, already_present: bool },
}

/// What is kept for a surface once a control has been handed out for it.
pub open spec fn controlled(data: TearingControlSurfaceData) -> TearingControlSurfaceData {
    TearingControlSurfaceData { has_control: true, ..data }
}

/// What is kept for a surface once its hint is this one.
pub open spec fn hinted(
    data: TearingControlSurfaceData,
    hint: PresentationHint,
) -> TearingControlSurfaceData {
    TearingControlSurfaceData { prefer_tearing: hint is Async, ..data }
}

/// What is kept for a surface without a control.
pub open spec fn reset() -> TearingControlSurfaceData {
    TearingControlSurfaceData { has_control: false, prefer_tearing: false }
}

/// What is kept for a surface, made up anew where there is nothing.
pub open spec fn kept(data: Option<TearingControlSurfaceData>) -> TearingControlSurfaceData {
    match data {
        Some(data) => data,
        None => reset(),
    }
}

fn keep(data: &Option<TearingControlSurfaceData>) -> (kept_data: TearingControlSurfaceData)
    ensures
        kept_data == kept(*data),
{
    match data {
        Some(data) => *data,
        None => TearingControlSurfaceData::default(),
    }
}

/// Takes in a request to the global, with what is kept for the surface that it
/// names.
pub fn manager_request(
    data: &mut Option<TearingControlSurfaceData>,
    request: ManagerRequest,
) -> (reply: ManagerReply)
    ensures
        match request {
            ManagerRequest::GetTearingControl { surface } => {
                &&& *final(data) == Some(controlled(kept(*old(data))))
                &&& reply == (ManagerReply::Control {
                    control: TearingControlData { surface },
                    already_present: kept(*old(data)).has_control,
                })
            },
            _ => *final(data) == *old(data) && reply == ManagerReply::Nothing,
        },
{
    match request {
        ManagerRequest::GetTearingControl { surface } => {
            let mut surface_data: TearingControlSurfaceData = keep(data);
            let already_present: bool = surface_data.has_control;
            surface_data.has_control = true;
            *data = Some(surface_data);
            ManagerReply::Control { control: TearingControlData { surface }, already_present }
        },
        ManagerRequest::Destroy | ManagerRequest::Unknown => ManagerReply::Nothing,
    }
}

/// Takes in a request to a control, with what is kept for its surface.
pub fn control_request(data: &mut Option<TearingControlSurfaceData>, request: ControlRequest)
    ensures
        *final(data) == match request {
            ControlRequest::SetPresentationHint { hint } => Some(hinted(kept(*old(data)), hint)),
            ControlRequest::Destroy => Some(reset()),
            ControlRequest::Unknown => *old(data),
        },
{
    match request {
        ControlRequest::SetPresentationHint { hint } => {
            let mut surface_data: TearingControlSurfaceData = keep(data);
            surface_data.prefer_tearing = matches!(hint, PresentationHint::Async);
            *data = Some(surface_data);
        },
        ControlRequest::Destroy => {
            control_destroyed(data);
        },
        ControlRequest::Unknown => {},
    }
}

/// Takes in that a control is gone, asked for or not, such as when its client
/// disconnects.
pub fn control_destroyed(data: &mut Option<TearingControlSurfaceData>)
    ensures
        *final(data) == Some(reset()),
{
    *data = Some(TearingControlSurfaceData::default());
}

/// What can happen to a surface.
pub enum SurfaceEvent {
    /// A control is asked for.
    Get,
    /// A control sets a hint.
    Hint(PresentationHint),
    /// A control is gone.
    Gone,
}

/// What is kept for a surface to which this has happened.
pub open spec fn kept_after(history: Seq<SurfaceEvent>) -> Option<TearingControlSurfaceData>
    decreases history.len(),
{
    if history.len() == 0 {
        None
    } else {
        let before = kept_after(history.drop_last());
        match history.last() {
            SurfaceEvent::Get => Some(controlled(kept(before))),
            SurfaceEvent::Hint(hint) => Some(hinted(kept(before), hint)),
            SurfaceEvent::Gone => Some(reset()),
        }
    }
}

/// Whether no control is gone from position `i` on.
pub open spec fn none_gone_since(history: Seq<SurfaceEvent>, i: int) -> bool {
    forall|j: int| i <= j < history.len() ==> !((#[trigger] history[j]) is Gone)
}

/// Whether the hint at position `i` is the last one, set by a control that is
/// not gone.
pub open spec fn standing_hint(history: Seq<SurfaceEvent>, i: int) -> bool {
    &&& 0 <= i < history.len()
    &&& history[i] is Hint
    &&& none_gone_since(history, i)
    &&& forall|j: int| i < j < history.len() ==> !((#[trigger] history[j]) is Hint)
}

/// A surface has one control at a time: asking for another is an error exactly
/// if one was handed out and none has gone since.
pub proof fn a_second_control_is_an_error(history: Seq<SurfaceEvent>)
    ensures
        kept(kept_after(history)).has_control <==> exists|i: int|
            0 <= i < history.len() && (#[trigger] history[i]) is Get && none_gone_since(history, i),
    decreases history.len(),
{
    if history.len() > 0 {
        let rest = history.drop_last();
        let last = history.len() - 1;
        a_second_control_is_an_error(rest);
        assert forall|j: int| 0 <= j < last implies rest[j] == history[j] by {}
        if history.last() is Get {
            assert(history[last] is Get && none_gone_since(history, last));
        } else if history.last() is Gone {
            assert forall|i: int| 0 <= i < history.len() implies !none_gone_since(history, i) by {
                assert(history[last] is Gone);
            }
        } else {
            if exists|i: int|
                0 <= i < rest.len() && (#[trigger] rest[i]) is Get && none_gone_since(rest, i) {
                let i = choose|i: int|
                    0 <= i < rest.len() && (#[trigger] rest[i]) is Get && none_gone_since(rest, i);
                assert forall|j: int| i <= j < history.len() implies !((#[trigger] history[j])
                    is Gone) by {
                    if j < last {
                        assert(rest[j] == history[j]);
                    }
                }
                assert(history[i] is Get && none_gone_since(history, i));
            }
            if exists|i: int|
                0 <= i < history.len() && (#[trigger] history[i]) is Get && none_gone_since(
                    history,
                    i,
                ) {
                let i = choose|i: int|
                    0 <= i < history.len() && (#[trigger] history[i]) is Get && none_gone_since(
                        history,
                        i,
                    );
                assert(i < last);
                assert(rest[i] is Get && none_gone_since(rest, i));
            }
        }
    }
}

/// The last hint counts, as long as its control is there: a surface prefers
/// tearing exactly if that hint was for it.
pub proof fn the_last_hint_counts(history: Seq<SurfaceEvent>)
    ensures
        (kept_after(history) matches Some(data) && data.prefer_tearing) <==> exists|i: int| #[trigger]
            standing_hint(history, i) && history[i]->Hint_0 is Async,
    decreases history.len(),
{
    if history.len() > 0 {
        let rest = history.drop_last();
        let last = history.len() - 1;
        the_last_hint_counts(rest);
        if history.last() is Hint {
            assert(standing_hint(history, last));
            assert forall|i: int| #[trigger] standing_hint(history, i) implies i == last by {
                if i < last {
                    assert(history[last] is Hint);
                }
            }
        } else if history.last() is Gone {
            assert forall|i: int| 0 <= i < history.len() implies !(#[trigger] standing_hint(
                history,
                i,
            )) by {
                assert(history[last] is Gone);
            }
        } else {
            assert forall|i: int| 0 <= i < last implies (#[trigger] standing_hint(rest, i)
                <==> standing_hint(history, i)) by {
                assert forall|j: int| 0 <= j < last implies rest[j] == history[j] by {}
                if standing_hint(rest, i) {
                    assert forall|j: int| i <= j < history.len() implies !((#[trigger] history[j])
                        is Gone) by {
                        if j < last {
                            assert(rest[j] == history[j]);
                        }
                    }
                    assert forall|j: int| i < j < history.len() implies !((#[trigger] history[j])
                        is Hint) by {
                        if j < last {
                            assert(rest[j] == history[j]);
                        }
                    }
                }
                if standing_hint(history, i) {
                    assert(none_gone_since(rest, i));
                }
            }
            assert forall|i: int| #[trigger] standing_hint(history, i) implies i < last by {}
            assert forall|i: int| #[trigger] standing_hint(rest, i) implies i < last by {}
            if exists|i: int| #[trigger]
                standing_hint(rest, i) && rest[i]->Hint_0 is Async {
                let i = choose|i: int| #[trigger]
                    standing_hint(rest, i) && rest[i]->Hint_0 is Async;
                assert(standing_hint(history, i) && history[i]->Hint_0 is Async);
            }
            if exists|i: int| #[trigger]
                standing_hint(history, i) && history[i]->Hint_0 is Async {
                let i = choose|i: int| #[trigger]
                    standing_hint(history, i) && history[i]->Hint_0 is Async;
                assert(standing_hint(rest, i) && rest[i]->Hint_0 is Async);
            }
        }
    }
}

/// A control that goes leaves nothing behind: the surface is as if it had
/// never had one.
pub proof fn a_control_leaves_nothing_behind(history: Seq<SurfaceEvent>)
    ensures
        kept(kept_after(history.push(SurfaceEvent::Gone))) == kept(None),
{
}

/// A control is handed out for the surface that it was asked for. The client is
/// told that there was one already exactly if there was, and the surface has one
/// from then on. Its hint stays.
pub proof fn a_control_is_handed_out_for_its_surface(
    data: &mut Option<TearingControlSurfaceData>,
    surface: u64,
    reply: ManagerReply,
)
    requires
        call_ensures(manager_request, (data, ManagerRequest::GetTearingControl { surface }), reply),
    ensures
        reply matches ManagerReply::Control { control, already_present } && control.surface == surface
            && (already_present <==> (*old(data) matches Some(d) && d.has_control)),
        *final(data) matches Some(d) && d.has_control,
        *old(data) matches Some(was) ==> (*final(data))->0.prefer_tearing == was.prefer_tearing,
        *old(data) is None ==> !(*final(data))->0.prefer_tearing,
{
}

/// Any other request to the global comes to nothing.
pub proof fn other_requests_hand_out_nothing(
    data: &mut Option<TearingControlSurfaceData>,
    request: ManagerRequest,
    reply: ManagerReply,
)
    requires
        call_ensures(manager_request, (data, request), reply),
        !(request is GetTearingControl),
    ensures
        reply is Nothing,
        *final(data) == *old(data),
{
}

/// A hint counts at once: right after it, tearing is preferred exactly if the
/// hint was for it. Whether the surface has a control is not touched.
pub proof fn a_hint_counts_at_once(
    data: &mut Option<TearingControlSurfaceData>,
    hint: PresentationHint,
    prefers: bool,
)
    requires
        call_ensures(control_request, (data, ControlRequest::SetPresentationHint { hint }), ()),
        call_ensures(surface_prefers_tearing, (*final(data),), prefers),
    ensures
        prefers <==> hint is Async,
        (*final(data) matches Some(d) && d.has_control) <==> (*old(data) matches Some(d)
            && d.has_control),
{
}

/// A control that goes, asked for or not, takes its hint with it, and another
/// can be had.
pub proof fn a_control_that_goes_takes_its_hint(
    asked: &mut Option<TearingControlSurfaceData>,
    unasked: &mut Option<TearingControlSurfaceData>,
    prefers: bool,
)
    requires
        call_ensures(control_request, (asked, ControlRequest::Destroy), ()),
        call_ensures(control_destroyed, (unasked,), ()),
        call_ensures(surface_prefers_tearing, (*final(asked),), prefers),
    ensures
        *final(asked) == *final(unasked),
        !prefers,
        !(*final(asked) matches Some(d) && d.has_control),
{
}

/// What is not known is ignored.
pub proof fn unknown_requests_are_ignored(data: &mut Option<TearingControlSurfaceData>)
    requires
        call_ensures(control_request, (data, ControlRequest::Unknown), ()),
    ensures
        *final(data) == *old(data),
{
}

/// A surface of which nothing is kept does not prefer tearing; of any other its
/// hint says.
pub proof fn only_a_hint_prefers_tearing(data: Option<TearingControlSurfaceData>, prefers: bool)
    requires
        call_ensures(surface_prefers_tearing, (data,), prefers),
    ensures
        data is None ==> !prefers,
        data matches Some(d) ==> (prefers <==> d.prefer_tearing),
{
}

/// The global is advertised in the first version of the protocol.
pub proof fn the_first_version_is_advertised(manager: TearingControlManagerState)
    requires
        call_ensures(TearingControlManagerState::new, (), manager),
    ensures
        manager.version == 1,
{
}

} // verus!
