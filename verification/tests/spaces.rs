use takhti::geometry::{Point, Rectangle, Size, Transform};
use takhti::mode::Mode;
use takhti::space::{Output, PhysicalSpace};

fn output(id: u64, w: i32, h: i32) -> Output {
    Output {
        id,
        name: format!("DP-{id}"),
        mode: Some(Mode { size: Size { w, h }, refresh: 60_000 }),
        transform: Transform::Normal,
    }
}

fn place(x: i32, y: i32) -> Point {
    Point { x, y }
}

fn positions(space: &PhysicalSpace) -> Vec<(u64, i32, i32)> {
    space.outputs.iter().map(|mapped| (mapped.output.id, mapped.loc.x, mapped.loc.y)).collect()
}

#[test]
fn outputs_are_packed_in_connect_order() {
    let mut space = PhysicalSpace::new();
    space.map_output(output(1, 1920, 1080), place(500, 7));
    space.map_output(output(2, 1280, 720), place(0, 0));
    space.map_output(output(3, 800, 600), place(-4, 0));
    assert!(space.row_in_range());
    space.reposition_outputs();
    assert_eq!(positions(&space), vec![(1, 0, 0), (2, 1920, 0), (3, 3200, 0)]);
    space.reposition_outputs();
    assert_eq!(positions(&space), vec![(1, 0, 0), (2, 1920, 0), (3, 3200, 0)]);
}

#[test]
fn turned_outputs_swap_their_sides() {
    let mut space = PhysicalSpace::new();
    let mut turned = output(1, 1920, 1080);
    turned.transform = Transform::Rotated90;
    space.map_output(turned, place(0, 0));
    space.map_output(output(2, 1280, 720), place(0, 0));
    space.reposition_outputs();
    assert_eq!(positions(&space), vec![(1, 0, 0), (2, 1080, 0)]);
    assert_eq!(
        space.output_geometry(1),
        Some(Rectangle { loc: place(0, 0), size: Size { w: 1080, h: 1920 } })
    );
}

#[test]
fn every_transform_that_turns_swaps() {
    let size = Size { w: 3, h: 2 };
    let turned = Size { w: 2, h: 3 };
    for transform in vec![
        Transform::Normal,
        Transform::Rotated180,
        Transform::Flipped,
        Transform::Flipped180,
    ] {
        assert_eq!(transform.transform_size(size), size);
    }
    for transform in vec![
        Transform::Rotated90,
        Transform::Rotated270,
        Transform::Flipped90,
        Transform::Flipped270,
    ] {
        assert_eq!(transform.transform_size(size), turned);
    }
}

#[test]
fn an_output_without_a_mode_stays_where_it_is() {
    let mut space = PhysicalSpace::new();
    let mut bare = output(1, 0, 0);
    bare.mode = None;
    space.map_output(bare, place(9, 9));
    space.map_output(output(2, 1280, 720), place(4, 4));
    space.reposition_outputs();
    assert_eq!(positions(&space), vec![(1, 9, 9), (2, 0, 0)]);
    assert_eq!(space.output_geometry(1), None);
    assert_eq!(space.output_mode(1), None);
}

#[test]
fn new_outputs_go_on_the_right_edge() {
    let mut space = PhysicalSpace::new();
    assert_eq!(space.next_position(), 0);
    space.map_output(output(1, 1920, 1080), place(0, 0));
    space.map_output(output(2, 1280, 720), place(-2000, 0));
    assert!(space.edges_in_range());
    assert_eq!(space.next_position(), 1920);
}

#[test]
fn mapping_again_moves_and_unmapping_removes() {
    let mut space = PhysicalSpace::new();
    space.map_output(output(1, 1920, 1080), place(0, 0));
    space.map_output(output(2, 1280, 720), place(1920, 0));
    space.map_output(output(1, 640, 480), place(5, 0));
    assert_eq!(positions(&space), vec![(1, 5, 0), (2, 1920, 0)]);
    space.set_mode(1, Mode { size: Size { w: 1, h: 2 }, refresh: 3 });
    assert_eq!(space.output_mode(1), Some(Mode { size: Size { w: 1, h: 2 }, refresh: 3 }));
    space.unmap_output(1);
    assert_eq!(positions(&space), vec![(2, 1920, 0)]);
    space.unmap_output(1);
    assert_eq!(positions(&space.duplicate()), vec![(2, 1920, 0)]);
}

#[test]
fn edges_beyond_thirty_two_bits_are_told() {
    let mut space = PhysicalSpace::new();
    space.map_output(output(1, i32::MAX, 1), place(1, 0));
    assert!(!space.edges_in_range());
    assert!(space.row_in_range());
    space.map_output(output(2, 1, 1), place(0, 0));
    assert!(!space.row_in_range());
}
