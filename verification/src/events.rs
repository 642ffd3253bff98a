//! Sketches of API shapes for an event-registration facility and a widget
//! tree: the same capability offered as two separate methods, as an enum
//! argument, and as marker types selecting a trait impl; and two ways a
//! widget trait can hand out its children.

use vstd::prelude::*;

verus! {

/// A drawable thing with no observable behaviour.
pub trait T1 {
    fn noop(&self);
}

/// The root of a two-level trait hierarchy.
pub trait Base {
    fn base(&self);
}

/// The refinement: whoever implements it must implement [`Base`] too.
pub trait Derived: Base {
    fn derived(&self);
}

/// Widget whose children are values of the same type.
pub trait Widget1: Sized {
    fn render(&self) -> Vec<Self>;
}

/// Widget whose children's type is a trait parameter.
pub trait Widget2<Children> {
    fn render(&self) -> Vec<Children>;
}

/// Event registry with separate methods for parallel and sequential
/// callbacks.
pub struct Events1 {}

impl Events1 {
    /// Registers `f` to run in parallel with other callbacks.
    pub fn register<E, F: Fn(E)>(&mut self, f: F) {
    }

    /// Registers `f` to run after earlier callbacks.
    pub fn register_sequential<E, F: Fn(E)>(&mut self, f: F) {
    }
}

/// Event registry with a single registration method.
pub struct Events {}

/// How a callback should be run.
pub enum Callback<F> {
    Parallel(F),
    Sequential(F),
}

impl Events {
    /// Registers `f`, wrapped in its scheduling choice.
    pub fn register<E, F: Fn(E)>(&mut self, f: Callback<F>) {
    }
}

/// Registration selected by a marker type.
pub trait Register<Marker, F, E> {
    fn register(&mut self, f: F);
}

/// Marker: run callbacks in parallel.
pub struct Parallel;

/// Marker: run callbacks one after another.
pub struct Sequential;

impl<F, E> Register<Parallel, F, E> for Events where F: Fn(E) {
    fn register(&mut self, f: F) {
    }
}

impl<F, E> Register<Sequential, F, E> for Events where F: Fn(Sequential, E) {
    fn register(&mut self, f: F) {
    }
}

} // verus!
