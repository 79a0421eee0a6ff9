//! What every change to the outputs keeps: each connected output is mapped,
//! under an identity of its own.

use vstd::prelude::*;

use crate::connectors::ConnectPlan;
use crate::geometry::{Point, Transform};
use crate::mode::{ConnectorInfo, Mode};
use crate::node::DrmNode;
use crate::redraw::RedrawState;
use crate::reload::ModeChange;
use crate::space::{MappedOutput, Output};
use crate::state::{SurfaceKey, TakhtiView, TtyView};

verus! {

impl TakhtiView {
    /// Whether the outputs hang together: each connected output is mapped, and
    /// no two have one identity.
    pub open spec fn coherent(self) -> bool {
        &&& forall|key: SurfaceKey| #[trigger]
            self.has(key) ==> crate::space::is_mapped(self.outputs, self.surface(key).output)
        &&& forall|a: SurfaceKey, b: SurfaceKey|
            #![trigger self.has(a), self.has(b)]
            self.has(a) && self.has(b) && self.surface(a).output == self.surface(b).output ==> a
                == b
    }
}

/// Taking one output out leaves the others.
pub(crate) proof fn lemma_without(outputs: Seq<MappedOutput>, id: u64, other: u64)
    ensures
        other != id && crate::space::is_mapped(outputs, other) ==> crate::space::is_mapped(
            crate::space::without(outputs, id),
            other,
        ),
        !crate::space::is_mapped(outputs, id) ==> crate::space::without(outputs, id) == outputs,
    decreases outputs.len(),
{
    let keep = |mapped: MappedOutput| mapped.output.id != id;
    let kept = crate::space::without(outputs, id);
    if other != id && crate::space::is_mapped(outputs, other) {
        let i = choose|i: int|
            0 <= i < outputs.len() && (#[trigger] outputs[i]).output.id == other;
        assert(outputs.contains(outputs[i]));
        crate::state::lemma_filter_members(outputs, keep, outputs[i]);
        assert(kept.contains(outputs[i]));
    }
    if !crate::space::is_mapped(outputs, id) {
        reveal(Seq::filter);
        if outputs.len() > 0 {
            let rest = outputs.drop_last();
            assert forall|i: int| 0 <= i < rest.len() implies (#[trigger] rest[i]).output.id
                != id by {
                assert(rest[i] == outputs[i]);
            }
            lemma_without(rest, id, other);
            assert(outputs.last() == outputs[outputs.len() - 1]);
            assert(kept =~= outputs);
        }
    }
}

/// Putting one output in leaves the others.
proof fn lemma_with_output(outputs: Seq<MappedOutput>, mapped: MappedOutput, id: u64)
    ensures
        crate::space::is_mapped(crate::space::with_output(outputs, mapped), id) <==> id
            == mapped.output.id || crate::space::is_mapped(outputs, id),
{
    let after = crate::space::with_output(outputs, mapped);
    if crate::space::is_mapped(outputs, mapped.output.id) {
        crate::space::lemma_position(outputs, mapped.output.id);
        let k = crate::space::position_of(outputs, mapped.output.id);
        assert(after[k].output.id == mapped.output.id);
    } else {
        assert(after[outputs.len() as int] == mapped);
    }
    if crate::space::is_mapped(outputs, id) {
        let i = choose|i: int| 0 <= i < outputs.len() && (#[trigger] outputs[i]).output.id == id;
        assert(after[i].output.id == id);
    }
    if crate::space::is_mapped(after, id) {
        let i = choose|i: int| 0 <= i < after.len() && (#[trigger] after[i]).output.id == id;
        if i < outputs.len() {
            assert(outputs[i].output.id == id || id == mapped.output.id);
        }
    }
}

/// Plugging in an output under a new identity keeps the outputs hanging
/// together.
pub proof fn connecting_keeps_coherence(
    takhti: TakhtiView,
    key: SurfaceKey,
    connector: ConnectorInfo,
    plan: ConnectPlan,
    output: u64,
    global: u64,
)
    requires
        takhti.coherent(),
        takhti.tty is Some,
        takhti.tty->0.devices.contains_key(key.node.dev),
        !crate::space::is_mapped(takhti.outputs, output),
    ensures
        crate::connectors::with_connected(takhti, key, connector, plan, output, global).coherent(),
{
    let after = crate::connectors::with_connected(takhti, key, connector, plan, output, global);
    let mapped = MappedOutput {
        output: Output {
            id: output,
            name: plan.name,
            mode: Some(plan.client_mode),
            transform: Transform::Normal,
        },
        loc: Point { x: plan.x, y: 0 },
    };
    assert forall|other: SurfaceKey| #[trigger] after.has(other) implies crate::space::is_mapped(
        after.outputs,
        after.surface(other).output,
    ) by {
        lemma_with_output(takhti.outputs, mapped, after.surface(other).output);
        if other != key {
            assert(takhti.has(other));
            assert(after.surface(other) == takhti.surface(other));
        }
    }
    assert forall|a: SurfaceKey, b: SurfaceKey|
        #![trigger after.has(a), after.has(b)]
        after.has(a) && after.has(b) && after.surface(a).output == after.surface(b).output implies a
        == b by {
        if a != key {
            assert(takhti.has(a) && after.surface(a) == takhti.surface(a));
        }
        if b != key {
            assert(takhti.has(b) && after.surface(b) == takhti.surface(b));
        }
    }
}

/// Unplugging an output keeps the others hanging together, and leaves nothing
/// of it.
pub proof fn disconnecting_keeps_coherence(takhti: TakhtiView, key: SurfaceKey)
    requires
        takhti.coherent(),
        takhti.has(key),
    ensures
        crate::connectors::with_disconnected(takhti, key).coherent(),
        !crate::connectors::with_disconnected(takhti, key).has(key),
        !crate::space::is_mapped(
            crate::connectors::with_disconnected(takhti, key).outputs,
            takhti.surface(key).output,
        ),
{
    let after = crate::connectors::with_disconnected(takhti, key);
    let id = takhti.surface(key).output;
    assert forall|other: SurfaceKey| #[trigger] after.has(other) implies crate::space::is_mapped(
        after.outputs,
        after.surface(other).output,
    ) by {
        assert(other != key);
        assert(takhti.has(other));
        assert(after.surface(other) == takhti.surface(other));
        lemma_without(takhti.outputs, id, takhti.surface(other).output);
    }
    assert forall|a: SurfaceKey, b: SurfaceKey|
        #![trigger after.has(a), after.has(b)]
        after.has(a) && after.has(b) && after.surface(a).output == after.surface(b).output implies a
        == b by {
        assert(takhti.has(a) && after.surface(a) == takhti.surface(a));
        assert(takhti.has(b) && after.surface(b) == takhti.surface(b));
    }
    if crate::space::is_mapped(after.outputs, id) {
        let i = choose|i: int|
            0 <= i < after.outputs.len() && (#[trigger] after.outputs[i]).output.id == id;
        assert(after.outputs.contains(after.outputs[i]));
        crate::state::lemma_filter_members(
            takhti.outputs,
            |mapped: MappedOutput| mapped.output.id != id,
            after.outputs[i],
        );
    }
}

/// Packing moves outputs and nothing else.
proof fn lemma_packed_mapped(outputs: Seq<MappedOutput>, id: u64)
    ensures
        crate::space::is_mapped(crate::space::packed(outputs), id) <==> crate::space::is_mapped(
            outputs,
            id,
        ),
{
    let after = crate::space::packed(outputs);
    if crate::space::is_mapped(outputs, id) {
        let i = choose|i: int| 0 <= i < outputs.len() && (#[trigger] outputs[i]).output.id == id;
        assert(after[i].output.id == id);
    }
    if crate::space::is_mapped(after, id) {
        let i = choose|i: int| 0 <= i < after.len() && (#[trigger] after[i]).output.id == id;
        assert(outputs[i].output.id == id);
    }
}

/// Packing the outputs again keeps them hanging together.
pub proof fn packing_keeps_coherence(takhti: TakhtiView)
    requires
        takhti.coherent(),
    ensures
        (TakhtiView { outputs: crate::space::packed(takhti.outputs), ..takhti }).coherent(),
{
    let after = TakhtiView { outputs: crate::space::packed(takhti.outputs), ..takhti };
    assert forall|key: SurfaceKey| #[trigger] after.has(key) implies crate::space::is_mapped(
        after.outputs,
        after.surface(key).output,
    ) by {
        assert(takhti.has(key));
        lemma_packed_mapped(takhti.outputs, takhti.surface(key).output);
    }
    assert forall|a: SurfaceKey, b: SurfaceKey|
        #![trigger after.has(a), after.has(b)]
        after.has(a) && after.has(b) && after.surface(a).output == after.surface(b).output implies a
        == b by {
        assert(takhti.has(a) && takhti.has(b));
    }
}

/// A device that goes takes its outputs with it, and the other outputs still
/// hang together. It may come back.
pub proof fn removing_a_device_keeps_coherence(takhti: TakhtiView, node: DrmNode)
    requires
        takhti.coherent(),
        takhti.tty matches Some(tty) && tty.devices.contains_key(node.dev),
    ensures
        crate::devices::with_removed(takhti, node).coherent(),
        forall|crtc: u32|
            !(#[trigger] crate::devices::with_removed(takhti, node).has(SurfaceKey { node, crtc })),
        node.is_primary() ==> crate::devices::wanted(
            crate::devices::with_removed(takhti, node),
            node,
        ),
{
    let after = crate::devices::with_removed(takhti, node);
    let device = takhti.tty->0.devices[node.dev];
    let ids = crate::devices::identities(device);
    let staying = crate::devices::outputs_besides(takhti.outputs, device);
    assert forall|key: SurfaceKey| #[trigger] after.has(key) implies crate::space::is_mapped(
        after.outputs,
        after.surface(key).output,
    ) by {
        let id = takhti.surface(key).output;
        assert(takhti.has(key) && after.surface(key) == takhti.surface(key));
        if ids.contains(id) {
            let crtc = choose|crtc: u32| #[trigger]
                device.surfaces.contains_key(crtc) && device.surfaces[crtc].output == id;
            let other = SurfaceKey { node, crtc };
            assert(takhti.has(other));
        }
        let i = choose|i: int|
            0 <= i < takhti.outputs.len() && (#[trigger] takhti.outputs[i]).output.id == id;
        assert(takhti.outputs.contains(takhti.outputs[i]));
        crate::state::lemma_filter_members(
            takhti.outputs,
            crate::devices::besides(ids),
            takhti.outputs[i],
        );
        assert(staying.contains(takhti.outputs[i]));
        lemma_packed_mapped(staying, id);
    }
    assert forall|a: SurfaceKey, b: SurfaceKey|
        #![trigger after.has(a), after.has(b)]
        after.has(a) && after.has(b) && after.surface(a).output == after.surface(b).output implies a
        == b by {
        assert(takhti.has(a) && after.surface(a) == takhti.surface(a));
        assert(takhti.has(b) && after.surface(b) == takhti.surface(b));
    }
}

/// Whatever happens to redraw states and callbacks keeps the outputs hanging
/// together.
pub proof fn redraws_keep_coherence(
    takhti: TakhtiView,
    keys: Set<SurfaceKey>,
    change: spec_fn(RedrawState) -> RedrawState,
    callbacks: Set<SurfaceKey>,
)
    requires
        takhti.coherent(),
        takhti.tty is Some,
    ensures
        (TakhtiView {
            tty: Some(TtyView { callbacks, ..takhti.tty->0.with_states(keys, change) }),
            ..takhti
        }).coherent(),
{
    let after = TakhtiView {
        tty: Some(TtyView { callbacks, ..takhti.tty->0.with_states(keys, change) }),
        ..takhti
    };
    crate::state::lemma_with_states(takhti.tty->0, keys, change);
    assert forall|key: SurfaceKey| #[trigger] after.has(key) implies crate::space::is_mapped(
        after.outputs,
        after.surface(key).output,
    ) by {
        assert(takhti.tty->0.with_states(keys, change).has(key));
        assert(takhti.has(key));
        assert(takhti.tty->0.with_states(keys, change).surface(key).output == takhti.surface(
            key,
        ).output);
    }
    assert forall|a: SurfaceKey, b: SurfaceKey|
        #![trigger after.has(a), after.has(b)]
        after.has(a) && after.has(b) && after.surface(a).output == after.surface(b).output implies a
        == b by {
        assert(takhti.tty->0.with_states(keys, change).has(a));
        assert(takhti.tty->0.with_states(keys, change).has(b));
        assert(takhti.has(a) && takhti.has(b));
        assert(takhti.tty->0.with_states(keys, change).surface(a).output == takhti.surface(
            a,
        ).output);
        assert(takhti.tty->0.with_states(keys, change).surface(b).output == takhti.surface(
            b,
        ).output);
    }
}

/// So does what happens to a single one.
pub proof fn a_redraw_keeps_coherence(
    takhti: TakhtiView,
    key: SurfaceKey,
    state: RedrawState,
    asked: bool,
)
    requires
        takhti.coherent(),
        takhti.has(key),
    ensures
        takhti.with_state(key, state).with_callback(key, asked).coherent(),
{
    let after = takhti.with_state(key, state).with_callback(key, asked);
    assert forall|other: SurfaceKey| #[trigger] after.has(other) implies crate::space::is_mapped(
        after.outputs,
        after.surface(other).output,
    ) by {
        assert(takhti.has(other) && after.surface(other).output == takhti.surface(other).output);
    }
    assert forall|a: SurfaceKey, b: SurfaceKey|
        #![trigger after.has(a), after.has(b)]
        after.has(a) && after.has(b) && after.surface(a).output == after.surface(b).output implies a
        == b by {
        assert(takhti.has(a) && after.surface(a).output == takhti.surface(a).output);
        assert(takhti.has(b) && after.surface(b).output == takhti.surface(b).output);
    }
}

/// Giving an output another mode leaves every output where it is.
proof fn lemma_with_mode(outputs: Seq<MappedOutput>, id: u64, mode: Mode, other: u64)
    ensures
        crate::space::is_mapped(outputs, other) ==> crate::space::is_mapped(
            crate::space::with_mode(outputs, id, mode),
            other,
        ),
{
    let after = crate::space::with_mode(outputs, id, mode);
    if crate::space::is_mapped(outputs, other) {
        let i = choose|i: int|
            0 <= i < outputs.len() && (#[trigger] outputs[i]).output.id == other;
        if crate::space::is_mapped(outputs, id) {
            crate::space::lemma_position(outputs, id);
        }
        assert(after[i].output.id == other);
    }
}

/// Setting modes keeps the outputs hanging together.
pub proof fn modes_keep_coherence(takhti: TakhtiView, changes: Seq<ModeChange>)
    requires
        takhti.coherent(),
    ensures
        crate::reload::with_modes_set(takhti, changes).coherent(),
    decreases changes.len(),
{
    if changes.len() > 0 {
        modes_keep_coherence(takhti, changes.drop_last());
        let before = crate::reload::with_modes_set(takhti, changes.drop_last());
        let after = crate::reload::with_modes_set(takhti, changes);
        let change = changes.last();
        if before.has(change.key) {
            assert forall|key: SurfaceKey| #[trigger]
                after.has(key) implies crate::space::is_mapped(
                after.outputs,
                after.surface(key).output,
            ) by {
                assert(before.has(key));
                assert(after.surface(key).output == before.surface(key).output);
                lemma_with_mode(
                    before.outputs,
                    before.surface(change.key).output,
                    change.mode.client_mode(),
                    before.surface(key).output,
                );
            }
            assert forall|a: SurfaceKey, b: SurfaceKey|
                #![trigger after.has(a), after.has(b)]
                after.has(a) && after.has(b) && after.surface(a).output == after.surface(
                    b,
                ).output implies a == b by {
                assert(before.has(a) && after.surface(a).output == before.surface(a).output);
                assert(before.has(b) && after.surface(b).output == before.surface(b).output);
            }
        }
    }
}

} // verus!
