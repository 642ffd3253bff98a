//! A minimal drawable-component framework: a [`Screen`] owns a heterogeneous
//! collection of components behind the [`Draw`] trait and runs them all.

use vstd::prelude::*;
use std::io::Write;

verus! {

/// Something that can draw itself.  Users implement this; the library never
/// promises anything about what drawing does.
pub trait Draw {
    fn draw(&self);
}

/// A screen full of components of possibly different types.
pub struct Screen {
    pub components: Vec<Box<dyn Draw>>,
}

impl Screen {
    /// Draws every component, in order.
    pub fn run(&self) {
        let mut i: usize = 0;
        while i < self.components.len()
            decreases self.components.len() - i,
        {
            self.components[i].draw();
            i += 1;
        }
    }
}

/// A push button.
pub struct Button {
    pub width: u32,
    pub height: u32,
    pub label: String,
}

/// Relies on `writeln!` to standard output: drawing a button reports its
/// address; nothing is promised of the output.
#[verifier::external_body]
fn report_button_drawn(button: &Button) {
    let _ = writeln!(std::io::stdout(), "drawing button: {:p}", button);
}

impl Draw for Button {
    fn draw(&self) {
        report_button_drawn(self);
    }
}

} // verus!
