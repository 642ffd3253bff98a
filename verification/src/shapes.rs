//! Small verified exercises around structs, enums and generics: rectangles
//! and their areas, a guarded guess for a guessing game, coin values, and
//! generic points and pairs.

use vstd::prelude::*;

verus! {

/// A rectangle measured in whole units.
#[derive(Clone, Copy, Debug, PartialEq, Eq, Structural)]
pub struct Rectangle {
    pub width: u32,
    pub height: u32,
}

impl Rectangle {
    /// A rectangle with the given sides.
    pub fn new(width: u32, height: u32) -> (r: Rectangle)
        ensures
            r.width == width,
            r.height == height,
    {
        Rectangle { width, height }
    }

    /// A square with side `size`.
    pub fn square(size: u32) -> (r: Rectangle)
        ensures
            r.width == size,
            r.height == size,
    {
        Rectangle { width: size, height: size }
    }

    /// The area, which must fit a `u32`.
    pub fn area(&self) -> (a: u32)
        requires
            self.width * self.height <= u32::MAX,
        ensures
            a == self.width * self.height,
    {
        self.width * self.height
    }

    /// Whether `other` fits strictly inside `self`.
    pub fn can_hold(&self, other: &Rectangle) -> (r: bool)
        ensures
            r == (self.width > other.width && self.height > other.height),
    {
        self.width > other.width && self.height > other.height
    }

    /// Replaces the width.
    pub fn set_width(&mut self, width: u32)
        ensures
            final(self).width == width,
            final(self).height == old(self).height,
    {
        self.width = width;
    }

    /// The side-wise maximum, as a specification value.
    pub open spec fn spec_max(self, other: Rectangle) -> Rectangle {
        Rectangle {
            width: if self.width >= other.width {
                self.width
            } else {
                other.width
            },
            height: if self.height >= other.height {
                self.height
            } else {
                other.height
            },
        }
    }

    /// The side-wise maximum of two rectangles.
    pub fn max(self, other: Rectangle) -> (r: Rectangle)
        ensures
            r == self.spec_max(other),
    {
        let width = if self.width >= other.width {
            self.width
        } else {
            other.width
        };
        let height = if self.height >= other.height {
            self.height
        } else {
            other.height
        };
        Rectangle { width, height }
    }

    /// Grows `self` to the side-wise maximum of itself and `other`.
    pub fn set_to_max(&mut self, other: Rectangle)
        ensures
            *final(self) == old(self).spec_max(other),
    {
        *self = self.max(other);
    }
}

/// Holds of a rectangle whose area exceeds `area`.
pub open spec fn exceeds_area(area: u32) -> spec_fn(Rectangle) -> bool {
    |r: Rectangle| r.width * r.height > area
}

/// The rectangles of `v` whose area exceeds `area`, in order.
pub fn greater_than_area(v: Vec<Rectangle>, area: u32) -> (r: Vec<Rectangle>)
    requires
        forall|k: int| 0 <= k < v@.len() ==> (#[trigger] v@[k]).width * v@[k].height <= u32::MAX,
    ensures
        r@ == v@.filter(exceeds_area(area)),
{
    let ghost all = v@;
    let ghost pred = exceeds_area(area);
    let mut r: Vec<Rectangle> = Vec::new();
    let mut i: usize = 0;
    proof {
        assert(all.take(0).filter(pred) =~= r@);
    }
    while i < v.len()
        invariant
            v@ == all,
            pred == exceeds_area(area),
            forall|k: int| 0 <= k < all.len() ==> (#[trigger] all[k]).width * all[k].height
                <= u32::MAX,
            i <= all.len(),
            r@ == all.take(i as int).filter(pred),
        decreases all.len() - i,
    {
        let rect = v[i];
        if rect.width * rect.height > area {
            r.push(rect);
        }
        proof {
            all.lemma_take_succ_push(i as int);
            all.take(i as int).lemma_filter_push(all[i as int], pred);
        }
        i += 1;
    }
    proof {
        assert(all.take(all.len() as int) =~= all);
    }
    r
}

/// A guess between one and one hundred, the only values the game accepts.
pub struct Guess {
    value: u32,
}

impl Guess {
    /// The held value, for specifications.
    pub closed spec fn spec_value(&self) -> u32 {
        self.value
    }

    /// Wraps a guess; the game never constructs one outside one to one
    /// hundred.
    pub fn new(value: u32) -> (g: Guess)
        requires
            1 <= value <= 100,
        ensures
            g.spec_value() == value,
    {
        Guess { value }
    }

    /// The guessed value.
    pub fn value(&self) -> (v: u32)
        ensures
            v == self.spec_value(),
    {
        self.value
    }
}

/// What the game answers to a guess.
pub enum GuessHint {
    Bigger,
    Smaller,
    Win,
}

/// Compares a guess with the secret: the secret is bigger, smaller, or hit.
pub fn guess_hint(guess: u32, secret: u32) -> (hint: GuessHint)
    ensures
        guess < secret ==> hint is Bigger,
        guess > secret ==> hint is Smaller,
        guess == secret ==> hint is Win,
{
    if guess < secret {
        GuessHint::Bigger
    } else if guess > secret {
        GuessHint::Smaller
    } else {
        GuessHint::Win
    }
}

/// The classic four coins.
pub enum Coin {
    Penny,
    Nickel,
    Dime,
    Quarter,
}

/// The value of a coin in cents.
pub fn in_cents(coin: Coin) -> (cents: u32)
    ensures
        cents == match coin {
            Coin::Penny => 1u32,
            Coin::Nickel => 5u32,
            Coin::Dime => 10u32,
            Coin::Quarter => 25u32,
        },
{
    match coin {
        Coin::Penny => 1,
        Coin::Nickel => 5,
        Coin::Dime => 10,
        Coin::Quarter => 25,
    }
}

/// States a quarter can come from.
#[derive(Clone, Copy, Debug)]
pub enum UsState {
    Alabama,
    Alaska,
}

/// The four coins again, with the quarter carrying its state.
pub enum Coin2 {
    Penny,
    Nickel,
    Dime,
    Quarter(UsState),
}

/// The value of a coin in cents; the quarter's state does not change it.
pub fn in_cents2(coin: Coin2) -> (cents: u32)
    ensures
        cents == match coin {
            Coin2::Penny => 1u32,
            Coin2::Nickel => 5u32,
            Coin2::Dime => 10u32,
            Coin2::Quarter(_) => 25u32,
        },
{
    match coin {
        Coin2::Penny => 1,
        Coin2::Nickel => 5,
        Coin2::Dime => 10,
        Coin2::Quarter(_) => 25,
    }
}

/// A pair of two values of one type.
pub struct Pair<T> {
    pub x: T,
    pub y: T,
}

impl<T> Pair<T> {
    /// Pairs `x` with `y`.
    pub fn new(x: T, y: T) -> (p: Pair<T>)
        ensures
            p.x == x,
            p.y == y,
    {
        Pair { x, y }
    }
}

/// A point with coordinates of two possibly different types.
pub struct Point<T, U> {
    pub x: T,
    pub y: U,
}

impl<T, U> Point<T, U> {
    /// A reference to the first coordinate.
    pub fn x(&self) -> (r: &T)
        ensures
            r == self.x,
    {
        &self.x
    }

    /// A reference to the second coordinate.
    pub fn y(&self) -> (r: &U)
        ensures
            r == self.y,
    {
        &self.y
    }

    /// Takes the first coordinate of `self` and the second of `other`.
    pub fn mixup<V, W>(self, other: Point<V, W>) -> (p: Point<T, W>)
        ensures
            p.x == self.x,
            p.y == other.y,
    {
        Point { x: self.x, y: other.y }
    }
}

} // verus!
