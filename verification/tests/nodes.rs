use takhti::node::{bring_up_order, DrmNode, NodeType, PrimaryProbe};

fn node(minor: u64) -> DrmNode {
    DrmNode { dev: (226 << 8) | minor }
}

#[test]
fn the_minor_number_tells_the_type() {
    assert_eq!(node(0).ty(), Some(NodeType::Primary));
    assert_eq!(node(63).ty(), Some(NodeType::Primary));
    assert_eq!(node(64).ty(), Some(NodeType::Control));
    assert_eq!(node(128).ty(), Some(NodeType::Render));
    assert_eq!(node(191).ty(), Some(NodeType::Render));
    assert_eq!(node(192).ty(), None);
    assert_eq!(DrmNode { dev: (226 << 8) | (1 << 20) }.ty(), None);
}

#[test]
fn a_requested_node_stands_for_its_gpu() {
    let probe = PrimaryProbe {
        node: node(128),
        requested: true,
        primary: Some(node(0)),
        render: Some(node(128)),
    };
    assert_eq!(probe.select(), (node(0), node(128)));
    let bare = PrimaryProbe { node: node(1), requested: true, primary: None, render: None };
    assert_eq!(bare.select(), (node(1), node(1)));
}

#[test]
fn the_seats_primary_gpu_is_taken_as_it_is() {
    let probe = PrimaryProbe {
        node: node(1),
        requested: false,
        primary: Some(node(0)),
        render: Some(node(129)),
    };
    assert_eq!(probe.select(), (node(1), node(129)));
}

#[test]
fn the_primary_gpu_comes_up_first() {
    let initial = vec![(node(2), "c"), (node(0), "a"), (node(1), "b"), (node(0), "d")];
    assert_eq!(
        bring_up_order(initial, node(0)),
        vec![(node(0), "a"), (node(0), "d"), (node(2), "c"), (node(1), "b")]
    );
    let others = vec![(node(2), "c"), (node(1), "b")];
    assert_eq!(bring_up_order(others, node(0)), vec![(node(2), "c"), (node(1), "b")]);
}
