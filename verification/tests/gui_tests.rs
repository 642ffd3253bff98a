use minigrep::events::Base;
use minigrep::events::Callback;
use minigrep::events::Derived;
use minigrep::events::Events;
use minigrep::events::Events1;
use minigrep::gui::Button;
use minigrep::gui::Draw;
use minigrep::gui::Screen;
use std::cell::Cell;
use std::rc::Rc;

struct CountingComponent {
    draws: Rc<Cell<u32>>,
}

impl Draw for CountingComponent {
    fn draw(&self) {
        self.draws.set(self.draws.get() + 1);
    }
}

#[test]
fn screens_draw_every_component() {
    let counter = Rc::new(Cell::new(0));
    let screen = Screen {
        components: vec![
            Box::new(CountingComponent { draws: counter.clone() }),
            Box::new(Button { width: 50, height: 10, label: String::from("OK") }),
            Box::new(CountingComponent { draws: counter.clone() }),
        ],
    };

    screen.run();

    assert_eq!(counter.get(), 2);
}

#[test]
fn an_empty_screen_runs_quietly() {
    let screen = Screen { components: vec![] };
    screen.run();
}

#[test]
fn callbacks_register_in_every_style() {
    let mut events1 = Events1 {};
    events1.register(|_n: u32| {});
    events1.register_sequential(|_n: u32| {});

    let mut events = Events {};
    events.register(Callback::Parallel(|_n: u32| {}));
    events.register(Callback::Sequential(|_n: u32| {}));
}

struct Widget {
    value: i32,
}

impl Base for Widget {
    fn base(&self) {}
}

impl Derived for Widget {
    fn derived(&self) {}
}

#[test]
fn derived_widgets_answer_both_traits() {
    let w = Widget { value: 1 };
    w.base();
    w.derived();
    assert_eq!(w.value, 1);
}
