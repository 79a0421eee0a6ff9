use std::collections::HashMap;

use takhti::geometry::Size;
use takhti::layout::{
    Border, BorderParams, Color, DecorationSettings, Shadow, ShadowParams, Tomoe, WindowProperties,
};

fn color(n: u32) -> Color {
    Color { red: n, green: n, blue: n, alpha: n }
}

fn tomoe() -> Tomoe {
    let mut sizes = HashMap::new();
    sizes.insert(1, Size { w: 100, h: 50 });
    sizes.insert(2, Size { w: 30, h: 20 });
    sizes.insert(9, Size { w: 1, h: 1 });
    let mut windows = HashMap::new();
    windows.insert(71, 1);
    windows.insert(72, 2);
    Tomoe {
        settings: DecorationSettings {
            border_width: 2,
            corner_radius: 8,
            border_focused: color(1),
            border_unfocused: color(2),
            shadow_color: color(3),
            shadow_range: 20,
            shadow_power: 3,
        },
        focused: Some(1),
        elements: vec![1, 2, 3],
        sizes,
        windows,
        window_properties: vec![],
        applied_corner_radius: 8,
        corner_damage: HashMap::new(),
        window_radii: HashMap::new(),
        borders: HashMap::new(),
        shadows: HashMap::new(),
        next_element: 40,
    }
}

fn refresh(tomoe: &mut Tomoe) {
    assert!(tomoe.is_refreshable());
    tomoe.refresh_borders();
}

#[test]
fn windows_get_borders_and_shadows() {
    let mut tomoe = tomoe();
    refresh(&mut tomoe);
    assert_eq!(tomoe.borders[&1].params, Some(BorderParams {
        size: Size { w: 104, h: 54 },
        color: color(1),
        width: 2,
        radius: 10,
    }));
    assert_eq!(tomoe.borders[&2].params, Some(BorderParams {
        size: Size { w: 34, h: 24 },
        color: color(2),
        width: 2,
        radius: 10,
    }));
    assert_eq!(tomoe.shadows[&1].params, Some(ShadowParams {
        size: Size { w: 100, h: 50 },
        color: color(3),
        range: 20,
        radius: 8,
        power: 3,
    }));
    assert_eq!(tomoe.window_radii[&1], 8);
    assert!(!tomoe.borders.contains_key(&3));
    assert!(!tomoe.borders.contains_key(&9));
    assert_eq!(tomoe.borders[&1].commit, 1);
    assert_ne!(tomoe.corner_damage[&1].id(), tomoe.corner_damage[&2].id());
    assert_eq!(tomoe.next_element, 42);
}

#[test]
fn unchanged_parameters_preserve_the_commit() {
    let mut tomoe = tomoe();
    refresh(&mut tomoe);
    refresh(&mut tomoe);
    assert_eq!(tomoe.borders[&1].commit, 1);
    assert_eq!(tomoe.shadows[&1].commit, 1);
    assert_eq!(tomoe.corner_damage[&1].current_commit(), 0);
    tomoe.focused = Some(2);
    refresh(&mut tomoe);
    assert_eq!(tomoe.borders[&1].commit, 2);
    assert_eq!(tomoe.borders[&2].commit, 2);
    assert_eq!(tomoe.shadows[&1].commit, 1);
}

#[test]
fn a_new_global_radius_damages_every_window_once() {
    let mut tomoe = tomoe();
    refresh(&mut tomoe);
    let id = tomoe.corner_damage[&2].id();
    tomoe.settings.corner_radius = 12;
    refresh(&mut tomoe);
    assert_eq!(tomoe.applied_corner_radius, 12);
    assert_eq!(tomoe.corner_damage[&1].current_commit(), 1);
    assert_eq!(tomoe.corner_damage[&2].current_commit(), 1);
    assert_eq!(tomoe.corner_damage[&2].id(), id);
    refresh(&mut tomoe);
    assert_eq!(tomoe.corner_damage[&2].current_commit(), 1);
    assert_eq!(tomoe.window_radii[&2], 12);
}

#[test]
fn a_window_can_have_its_own_looks() {
    let mut tomoe = tomoe();
    let own = WindowProperties {
        radius: Some(0),
        border_focused: Some(color(5)),
        border_unfocused: Some(color(6)),
    };
    let unnamed = WindowProperties { radius: Some(99), border_focused: None, border_unfocused: None };
    tomoe.window_properties = vec![(70, unnamed), (72, own), (71, own)];
    refresh(&mut tomoe);
    assert_eq!(tomoe.window_radii[&1], 0);
    assert_eq!(tomoe.borders[&1].params.unwrap().color, color(5));
    assert_eq!(tomoe.borders[&2].params.unwrap().color, color(6));
    assert_eq!(tomoe.borders[&2].params.unwrap().radius, 2);
}

#[test]
fn the_first_entry_for_a_window_counts() {
    let mut tomoe = tomoe();
    tomoe.windows.insert(73, 1);
    let first = WindowProperties { radius: Some(1), border_focused: None, border_unfocused: None };
    let second = WindowProperties { radius: Some(2), border_focused: None, border_unfocused: None };
    tomoe.window_properties = vec![(73, first), (71, second)];
    refresh(&mut tomoe);
    assert_eq!(tomoe.window_radii[&1], 1);
    assert_eq!(tomoe.borders[&1].params.unwrap().color, color(1));
}

#[test]
fn negative_settings_count_as_zero() {
    let mut tomoe = tomoe();
    tomoe.settings.border_width = -3;
    tomoe.settings.corner_radius = -1;
    refresh(&mut tomoe);
    assert_eq!(tomoe.borders[&1].params, Some(BorderParams {
        size: Size { w: 100, h: 50 },
        color: color(1),
        width: 0,
        radius: 0,
    }));
    assert_eq!(tomoe.applied_corner_radius, 0);
}

#[test]
fn borders_beyond_thirty_two_bits_are_told() {
    let mut tomoe = tomoe();
    tomoe.settings.border_width = i32::MAX;
    assert!(!tomoe.is_refreshable());
    tomoe.elements = vec![3];
    assert!(tomoe.is_refreshable());
    tomoe.next_element = u64::MAX;
    assert!(!tomoe.is_refreshable());
}

#[test]
fn decorations_start_blank() {
    assert_eq!(Border::default().params, None);
    assert_eq!(Border::default().commit, 0);
    assert_eq!(Shadow::default().params, None);
    assert_eq!(Shadow::default().commit, 0);
}
