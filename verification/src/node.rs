//! GPU device nodes.

use vstd::prelude::*;

verus! {

/// What a device node is for.
#[derive(Clone, Copy, Debug, PartialEq, Eq, Structural)]
pub enum NodeType {
    /// Mode setting, and buffers.
    Primary,
    /// Mode setting only; unused.
    Control,
    /// Buffers and rendering, without mode setting.
    Render,
}

/// A GPU device node, by its device number.
#[derive(Clone, Copy, Debug, PartialEq, Eq, Structural)]
pub struct DrmNode {
    pub dev: u64,
}

/// The minor part of a device number.
pub open spec fn minor_of(dev: u64) -> u64 {
    ((dev >> 12) & 0xffff_ff00) | (dev & 0xff)
}

/// The node type that a minor number belongs to. Each type has a range of
/// sixty-four numbers.
pub open spec fn type_of_minor(minor: u64) -> Option<NodeType> {
    if minor >> 6 == 0 {
        Some(NodeType::Primary)
    } else if minor >> 6 == 1 {
        Some(NodeType::Control)
    } else if minor >> 6 == 2 {
        Some(NodeType::Render)
    } else {
        None
    }
}

impl DrmNode {
    /// The node's type.
    pub open spec fn node_type(self) -> Option<NodeType> {
        type_of_minor(minor_of(self.dev))
    }

    /// Whether the node can set modes and hand out buffers.
    pub open spec fn is_primary(self) -> bool {
        self.node_type() == Some(NodeType::Primary)
    }

    /// The node's type, which its device number tells.
    pub fn ty(&self) -> (ty: Option<NodeType>)
        ensures
            ty == self.node_type(),
    {
        let range: u64 = (((self.dev >> 12) & 0xffff_ff00) | (self.dev & 0xff)) >> 6;
        if range == 0 {
            Some(NodeType::Primary)
        } else if range == 1 {
            Some(NodeType::Control)
        } else if range == 2 {
            Some(NodeType::Render)
        } else {
            None
        }
    }
}

/// What was found out about the GPU that is to render.
#[derive(Clone, Copy, Debug)]
pub struct PrimaryProbe {
    /// The node that was asked for, or else the seat's primary GPU.
    pub node: DrmNode,
    /// Whether the node was asked for by path.
    pub requested: bool,
    /// The GPU's primary node, where there is one.
    pub primary: Option<DrmNode>,
    /// The GPU's render node, where there is one.
    pub render: Option<DrmNode>,
}

impl PrimaryProbe {
    /// The nodes to set modes and to render on.
    pub open spec fn nodes(self) -> (DrmNode, DrmNode) {
        (
            if self.requested && self.primary is Some {
                self.primary->0
            } else {
                self.node
            },
            if self.render is Some {
                self.render->0
            } else {
                self.node
            },
        )
    }

    /// The primary node and the render node of the GPU that renders. Whatever
    /// kind of node was asked for, its siblings are used where they exist; the
    /// seat's primary GPU is taken as it is.
    pub fn select(&self) -> (nodes: (DrmNode, DrmNode))
        ensures
            nodes == self.nodes(),
    {
        let primary: DrmNode = match self.primary {
            Some(primary) => if self.requested {
                primary
            } else {
                self.node
            },
            None => self.node,
        };
        let render: DrmNode = match self.render {
            Some(render) => render,
            None => self.node,
        };
        (primary, render)
    }
}

/// Picks the entries of a node.
pub open spec fn entries_of<T>(node: DrmNode) -> spec_fn((DrmNode, T)) -> bool {
    |entry: (DrmNode, T)| entry.0 == node
}

/// Picks the entries of every other node.
pub open spec fn entries_besides<T>(node: DrmNode) -> spec_fn((DrmNode, T)) -> bool {
    |entry: (DrmNode, T)| entry.0 != node
}

/// The devices in the order in which to bring them up: the primary one first,
/// the others after it in the order given.
pub open spec fn bring_up_sequence<T>(initial: Seq<(DrmNode, T)>, primary: DrmNode) -> Seq<
    (DrmNode, T),
> {
    initial.filter(entries_of(primary)) + initial.filter(entries_besides(primary))
}

/// Orders the devices for bringing them up: the primary one must come first,
/// since display-only devices allocate their scanout buffers from it.
pub fn bring_up_order<T>(initial: Vec<(DrmNode, T)>, primary: DrmNode) -> (order: Vec<(DrmNode, T)>)
    ensures
        order@ == bring_up_sequence(initial@, primary),
{
    let ghost all = initial@;
    let ghost mut i: int = 0;
    let mut rest: Vec<(DrmNode, T)> = initial;
    let mut first: Vec<(DrmNode, T)> = Vec::new();
    let mut others: Vec<(DrmNode, T)> = Vec::new();
    proof {
        reveal(Seq::filter);
    }
    while rest.len() > 0
        invariant
            0 <= i,
            i + rest@.len() == all.len(),
            rest@ =~= all.skip(i),
            first@ =~= all.take(i).filter(entries_of(primary)),
            others@ =~= all.take(i).filter(entries_besides(primary)),
        decreases rest@.len(),
    {
        let entry = rest.remove(0);
        proof {
            assert(entry == all[i]);
            assert(all.take(i + 1).drop_last() =~= all.take(i));
            assert(all.take(i + 1).last() == entry);
            reveal(Seq::filter);
        }
        if entry.0 == primary {
            first.push(entry);
        } else {
            others.push(entry);
        }
        proof {
            i = i + 1;
        }
    }
    assert(all.take(i) =~= all);
    first.append(&mut others);
    first
}

proof fn lemma_filter_satisfies<A>(s: Seq<A>, keep: spec_fn(A) -> bool)
    ensures
        forall|i: int| 0 <= i < s.filter(keep).len() ==> keep(#[trigger] s.filter(keep)[i]),
    decreases s.len(),
{
    reveal(Seq::filter);
    if s.len() > 0 {
        lemma_filter_satisfies(s.drop_last(), keep);
    }
}

/// The primary device comes up before every other one.
pub proof fn primary_comes_up_first<T>(initial: Seq<(DrmNode, T)>, primary: DrmNode, i: int, j: int)
    requires
        0 <= i < bring_up_sequence(initial, primary).len(),
        0 <= j < bring_up_sequence(initial, primary).len(),
        bring_up_sequence(initial, primary)[i].0 == primary,
        bring_up_sequence(initial, primary)[j].0 != primary,
    ensures
        i < j,
{
    lemma_filter_satisfies(initial, entries_of(primary));
    lemma_filter_satisfies(initial, entries_besides(primary));
    let first = initial.filter(entries_of(primary));
    let others = initial.filter(entries_besides(primary));
    if i >= first.len() {
        assert(others[i - first.len()].0 != primary);
    }
    if j < first.len() {
        assert(first[j].0 == primary);
    }
}

/// Device nodes come in ranges of sixty-four by their minor number: those that
/// set modes, those that are unused, and those that render. The minor number is
/// made up of the lowest eight bits of the device number and of twenty-four
/// bits above the lowest twenty.
pub proof fn node_types_come_in_ranges(node: DrmNode, ty: Option<NodeType>)
    requires
        call_ensures(DrmNode::ty, (&node,), ty),
    ensures
        ({
            let minor = (node.dev as int / 0x10_0000 % 0x100_0000) * 256 + node.dev as int % 256;
            &&& ty == Some(NodeType::Primary) <==> minor < 64
            &&& ty == Some(NodeType::Control) <==> 64 <= minor < 128
            &&& ty == Some(NodeType::Render) <==> 128 <= minor < 192
            &&& ty is None <==> 192 <= minor
        }),
{
    let dev = node.dev;
    let minor = (dev / 0x10_0000 % 0x100_0000) * 256 + dev % 256;
    assert(((dev >> 12) & 0xffff_ff00) | (dev & 0xff) == (dev / 0x10_0000 % 0x100_0000) * 256 + dev
        % 256) by (bit_vector);
    let bits: u64 = minor_of(dev);
    assert(bits >> 6 == bits / 64) by (bit_vector);
}

/// Modes are set on the GPU that was asked for, on its primary node where it has
/// one; the seat's own choice is taken as it is. Rendering happens on the render
/// node where there is one.
pub proof fn siblings_are_used_where_they_exist(probe: PrimaryProbe, nodes: (DrmNode, DrmNode))
    requires
        call_ensures(PrimaryProbe::select, (&probe,), nodes),
    ensures
        !probe.requested || probe.primary is None ==> nodes.0 == probe.node,
        probe.requested && probe.primary is Some ==> Some(nodes.0) == probe.primary,
        probe.render is Some ==> Some(nodes.1) == probe.render,
        probe.render is None ==> nodes.1 == probe.node,
{
}

/// Every device is brought up, those of the primary node before all others, and
/// among either kind in the order in which they were found.
pub proof fn devices_come_up_in_order<T>(
    initial: Vec<(DrmNode, T)>,
    primary: DrmNode,
    order: Vec<(DrmNode, T)>,
    entry: (DrmNode, T),
)
    requires
        call_ensures(bring_up_order::<T>, (initial, primary), order),
    ensures
        order@.len() == initial@.len(),
        order@.contains(entry) <==> initial@.contains(entry),
        exists|m: int|
            #![trigger order@.take(m)]
            0 <= m <= order@.len() && crate::space::subsequence(order@.take(m), initial@)
                && crate::space::subsequence(order@.skip(m), initial@) && (forall|i: int|
                0 <= i < m ==> (#[trigger] order@[i]).0 == primary) && forall|i: int|
                m <= i < order@.len() ==> (#[trigger] order@[i]).0 != primary,
{
    let first = initial@.filter(entries_of(primary));
    let others = initial@.filter(entries_besides(primary));
    let m = first.len() as int;
    lemma_filter_satisfies(initial@, entries_of(primary));
    lemma_filter_satisfies(initial@, entries_besides(primary));
    lemma_split_len(initial@, primary);
    crate::space::lemma_filter_in_order(initial@, entries_of(primary));
    crate::space::lemma_filter_in_order(initial@, entries_besides(primary));
    crate::state::lemma_filter_members(initial@, entries_of(primary), entry);
    crate::state::lemma_filter_members(initial@, entries_besides(primary), entry);
    assert(order@ == first + others);
    assert(order@.take(m) =~= first);
    assert(order@.skip(m) =~= others);
    assert forall|i: int| 0 <= i < m implies (#[trigger] order@[i]).0 == primary by {
        assert(order@[i] == first[i]);
    }
    assert forall|i: int| m <= i < order@.len() implies (#[trigger] order@[i]).0 != primary by {
        assert(order@[i] == others[i - m]);
    }
    if first.contains(entry) {
        let i = choose|i: int| 0 <= i < first.len() && first[i] == entry;
        assert(order@[i] == entry);
    }
    if others.contains(entry) {
        let i = choose|i: int| 0 <= i < others.len() && others[i] == entry;
        assert(order@[m + i] == entry);
    }
    if order@.contains(entry) {
        let i = choose|i: int| 0 <= i < order@.len() && order@[i] == entry;
        if i < m {
            assert(first[i] == entry);
        } else {
            assert(others[i - m] == entry);
        }
    }
}

proof fn lemma_split_len<T>(s: Seq<(DrmNode, T)>, primary: DrmNode)
    ensures
        s.filter(entries_of(primary)).len() + s.filter(entries_besides(primary)).len() == s.len(),
    decreases s.len(),
{
    reveal(Seq::filter);
    if s.len() > 0 {
        lemma_split_len(s.drop_last(), primary);
    }
}

} // verus!
