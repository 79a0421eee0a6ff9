use takhti::mode::{RefreshSetting, Resolution, SizeSetting};
use takhti::table::NamedTable;

fn resolution(w: u16) -> Resolution {
    Resolution { size: SizeSetting::Exact(w, 1), refresh: RefreshSetting::Auto }
}

#[test]
fn a_table_holds_the_last_value_under_a_name() {
    let mut table = NamedTable::new();
    assert_eq!(table.get(&String::from("DP-1")), None);
    table.insert(String::from("DP-1"), resolution(1));
    table.insert(String::from("DP-2"), resolution(2));
    table.insert(String::from("DP-1"), resolution(3));
    assert_eq!(table.get(&String::from("DP-1")), Some(resolution(3)));
    assert_eq!(table.get(&String::from("DP-2")), Some(resolution(2)));
    assert_eq!(table.get(&String::from("DP-3")), None);
}

#[test]
fn tables_compare_whatever_the_order() {
    let mut a = NamedTable::new();
    a.insert(String::from("DP-1"), resolution(1));
    a.insert(String::from("DP-2"), resolution(2));
    let mut b = NamedTable::new();
    b.insert(String::from("DP-2"), resolution(2));
    assert!(!a.same(&b));
    b.insert(String::from("DP-1"), resolution(1));
    assert!(a.same(&b));
    assert!(b.same(&a.duplicate()));
    b.insert(String::from("DP-1"), resolution(4));
    assert!(!a.same(&b));
}
