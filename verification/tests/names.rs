use takhti::names::{connector_name, join_name};

#[test]
fn connector_names_are_the_kernels() {
    assert_eq!(connector_name(10, 1), "DP-1");
    assert_eq!(connector_name(11, 2), "HDMI-A-2");
    assert_eq!(connector_name(14, 1), "eDP-1");
}

#[test]
fn every_kind_of_connector_has_its_short_name() {
    let labels = vec![
        "Unknown", "VGA", "DVI-I", "DVI-D", "DVI-A", "Composite", "SVIDEO", "LVDS", "Component",
        "DIN", "DP", "HDMI-A", "HDMI-B", "TV", "eDP", "Virtual", "DSI", "DPI", "Writeback", "SPI",
        "USB",
    ];
    for (interface, label) in labels.iter().enumerate() {
        assert_eq!(connector_name(interface as u32, 7), format!("{label}-7"));
    }
    assert_eq!(connector_name(21, 7), "Unknown-7");
    assert_eq!(connector_name(u32::MAX, 7), "Unknown-7");
}

#[test]
fn numbers_are_written_in_full() {
    let label = String::from("DP");
    assert_eq!(join_name(&label, 0), "DP-0");
    assert_eq!(join_name(&label, 10), "DP-10");
    assert_eq!(join_name(&label, 907), "DP-907");
    assert_eq!(join_name(&label, u32::MAX), "DP-4294967295");
}

#[test]
fn names_tell_connectors_apart() {
    assert_ne!(connector_name(10, 11), connector_name(10, 1));
    assert_ne!(connector_name(2, 1), connector_name(3, 1));
}
