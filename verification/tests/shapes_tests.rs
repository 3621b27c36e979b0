use rust_tour::shapes::{Point, Rectangle};

#[test]
fn area_and_perimeter() {
    let rect = Rectangle { width: 30, height: 50 };
    assert_eq!(rect.area(), 1500);
    assert_eq!(rect.perimeter(), 160);
    let flat = Rectangle { width: 0, height: 9 };
    assert_eq!(flat.area(), 0);
    assert_eq!(flat.perimeter(), 18);
    assert_eq!(Rectangle { width: 65_535, height: 65_537 }.area(), u32::MAX);
}

#[test]
fn can_hold_needs_room_on_both_sides() {
    let rect1 = Rectangle { width: 30, height: 50 };
    let rect2 = Rectangle { width: 10, height: 40 };
    let rect3 = Rectangle { width: 60, height: 45 };
    assert!(rect1.can_hold(&rect2));
    assert!(!rect1.can_hold(&rect3));
    assert!(!rect1.can_hold(&rect1));
    assert!(!rect1.can_hold(&Rectangle { width: 30, height: 10 }));
    assert!(!rect1.can_hold(&Rectangle { width: 10, height: 50 }));
}

#[test]
fn square_has_equal_sides() {
    let square = Rectangle::square(10);
    assert_eq!(square.width, 10);
    assert_eq!(square.height, 10);
    assert_eq!(square.area(), 100);
    assert_eq!(square.perimeter(), 40);
}

#[test]
fn points_add_by_coordinate() {
    let sum = Point { x: 1, y: 0 } + Point { x: 2, y: 3 };
    assert_eq!(sum.x, 3);
    assert_eq!(sum.y, 3);
    let sum = Point { x: i32::MAX, y: i32::MIN } + Point { x: -1, y: 1 };
    assert_eq!(sum.x, i32::MAX - 1);
    assert_eq!(sum.y, i32::MIN + 1);
}
