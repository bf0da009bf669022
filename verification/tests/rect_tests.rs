use grepcells::rect::Rectangle;

#[test]
fn area_is_the_exact_product() {
    let rect = Rectangle { width: 40, height: 30 };
    assert_eq!(rect.area(), 1200);
}

#[test]
fn can_hold_compares_both_sides() {
    let rect1 = Rectangle { width: 40, height: 30 };
    let rect2 = Rectangle { width: 10, height: 20 };
    assert!(rect1.can_hold(&rect2));
    assert!(!rect2.can_hold(&rect1));
    let tall = Rectangle { width: 5, height: 100 };
    assert!(!rect1.can_hold(&tall));
    assert!(rect1.can_hold(&rect1));
}
