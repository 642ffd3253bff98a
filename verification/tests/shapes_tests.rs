use minigrep::Guess;
use minigrep::Rectangle;
use minigrep::shapes::Coin;
use minigrep::shapes::Coin2;
use minigrep::shapes::GuessHint;
use minigrep::shapes::Pair;
use minigrep::shapes::Point;
use minigrep::shapes::UsState;
use minigrep::shapes::greater_than_area;
use minigrep::shapes::guess_hint;
use minigrep::shapes::in_cents;
use minigrep::shapes::in_cents2;

#[test]
fn rectangle_areas_and_containment() {
    let rect1 = Rectangle { width: 30, height: 50 };
    let rect2 = Rectangle::new(10, 20);
    let rect3 = Rectangle::square(100);

    assert_eq!(rect1.area(), 1500);
    assert_eq!(rect2.area(), 200);
    assert_eq!(rect3.area(), 10000);

    assert!(rect1.can_hold(&rect2));
    assert!(!rect1.can_hold(&rect3));
    assert!(!rect2.can_hold(&rect1));
    assert!(rect3.can_hold(&rect1));
}

#[test]
fn rectangle_max_takes_each_side() {
    let rect = Rectangle { width: 0, height: 0 };
    assert_eq!(rect.area(), 0);

    let other_rect = Rectangle { width: 1, height: 1 };
    let mut max_rect = rect.max(other_rect);
    assert_eq!(max_rect.area(), 1);

    max_rect.set_width(10);
    assert_eq!(max_rect.area(), 10);

    let mut rect4 = Rectangle { width: 0, height: 1 };
    let rect5 = Rectangle { width: 1, height: 0 };
    rect4.set_to_max(rect5);
    assert_eq!(rect4, Rectangle { width: 1, height: 1 });
}

#[test]
fn greater_than_area_filters_rectangles() {
    let rectangles = vec![
        Rectangle { height: 1, width: 1 },
        Rectangle { height: 2, width: 2 },
        Rectangle { height: 3, width: 3 },
        Rectangle { height: 4, width: 4 },
    ];
    let big = greater_than_area(rectangles, 4);
    assert_eq!(
        big,
        vec![Rectangle { height: 3, width: 3 }, Rectangle { height: 4, width: 4 }]
    );
}

#[test]
fn guesses_keep_their_value() {
    let g = Guess::new(1);
    assert_eq!(g.value(), 1);
    let g = Guess::new(100);
    assert_eq!(g.value(), 100);
}

#[test]
fn guess_hints_point_at_the_secret() {
    assert!(matches!(guess_hint(3, 7), GuessHint::Bigger));
    assert!(matches!(guess_hint(9, 7), GuessHint::Smaller));
    assert!(matches!(guess_hint(7, 7), GuessHint::Win));
}

#[test]
fn coins_are_worth_their_cents() {
    assert_eq!(in_cents(Coin::Penny), 1);
    assert_eq!(in_cents(Coin::Nickel), 5);
    assert_eq!(in_cents(Coin::Dime), 10);
    assert_eq!(in_cents(Coin::Quarter), 25);

    assert_eq!(in_cents2(Coin2::Penny), 1);
    assert_eq!(in_cents2(Coin2::Nickel), 5);
    assert_eq!(in_cents2(Coin2::Dime), 10);
    assert_eq!(in_cents2(Coin2::Quarter(UsState::Alabama)), 25);
    assert_eq!(in_cents2(Coin2::Quarter(UsState::Alaska)), 25);
}

#[test]
fn pairs_and_points_keep_their_coordinates() {
    let p = Pair::new(1, 2);
    assert_eq!(p.x, 1);
    assert_eq!(p.y, 2);

    let a = Point { x: 5, y: 10 };
    assert_eq!(*a.x(), 5);
    assert_eq!(*a.y(), 10);

    let b = Point { x: 5, y: "hi" };
    let c = Point { x: "left", y: 'c' };
    let mixed = b.mixup(c);
    assert_eq!(mixed.x, 5);
    assert_eq!(mixed.y, 'c');
}
