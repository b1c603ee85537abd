use guessing_game::rect::area;
use guessing_game::rect::Rectangle;

#[test]
fn area_of_rectangle() {
    let rec1 = Rectangle { width: 30, height: 50 };
    assert_eq!(area(&rec1), 1500);
    assert_eq!(rec1.area(), 1500);
}

#[test]
fn area_after_widening() {
    let rec2 = Rectangle { width: 50, height: 50 };
    assert_eq!(area(&rec2), 2500);
    assert_eq!(rec2.area(), 2500);
}

#[test]
fn can_hold_needs_both_sides_strictly_larger() {
    let rec1 = Rectangle { width: 30, height: 50 };
    let rec2 = Rectangle { width: 50, height: 50 };
    assert!(!rec1.can_hold(&rec2));
    assert!(!rec2.can_hold(&rec1));
    let big = Rectangle { width: 60, height: 60 };
    assert!(big.can_hold(&rec1));
    assert!(!rec1.can_hold(&rec1));
}

#[test]
fn square_has_equal_sides() {
    let squ1 = Rectangle::square(30);
    assert_eq!(squ1.width, 30);
    assert_eq!(squ1.height, 30);
    assert_eq!(squ1.area(), 900);
}
