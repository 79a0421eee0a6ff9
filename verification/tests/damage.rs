use takhti::damage::ExtraDamage;
use takhti::geometry::{Point, Rectangle, Size};

fn area(x: i32, w: i32) -> Rectangle {
    Rectangle { loc: Point { x, y: 0 }, size: Size { w, h: 10 } }
}

#[test]
fn bumping_an_element_damages_it_once() {
    let mut damage = ExtraDamage::new(5);
    assert_eq!(damage.current_commit(), 0);
    assert_eq!(damage.geometry(), Rectangle {
        loc: Point { x: 0, y: 0 },
        size: Size { w: 0, h: 0 },
    });
    let seen = damage.render(area(1, 2)).current_commit();
    damage.damage_all();
    let drawn = damage.render(area(3, 4));
    assert_ne!(drawn.current_commit(), seen);
    assert_eq!(drawn.current_commit(), 1);
    assert_eq!(drawn.id(), 5);
    assert_eq!(drawn.geometry(), area(3, 4));
    assert_eq!(damage.render(area(5, 6)).current_commit(), drawn.current_commit());
}

#[test]
fn only_the_last_place_counts() {
    let mut damage = ExtraDamage::new(7);
    let drawn = damage.render(area(1, 2));
    assert_eq!(drawn.render(area(3, 4)), damage.render(area(3, 4)));
    assert_ne!(drawn.render(area(3, 4)), drawn);
    let mut late = drawn;
    late.damage_all();
    damage.damage_all();
    assert_eq!(late, damage.render(area(1, 2)));
}
