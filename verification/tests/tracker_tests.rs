use minigrep::tracker::LimitTracker;
use minigrep::tracker::Messenger;
use minigrep::tracker::quota_level_of;
use std::cell::RefCell;

struct MockMessenger {
    sent_messages: RefCell<Vec<String>>,
}

impl MockMessenger {
    fn new() -> MockMessenger {
        MockMessenger { sent_messages: RefCell::new(vec![]) }
    }
}

impl Messenger for MockMessenger {
    fn send(&self, message: &str) {
        self.sent_messages.borrow_mut().push(String::from(message));
    }
}

#[test]
fn it_sends_an_over_75_percent_warning_message() {
    let mock_messenger = MockMessenger::new();
    let mut limit_tracker = LimitTracker::new(&mock_messenger, 100);

    limit_tracker.set_value(80);

    assert_eq!(mock_messenger.sent_messages.borrow().len(), 1);
}

#[test]
fn each_threshold_has_its_message() {
    let mock = MockMessenger::new();
    let mut tracker = LimitTracker::new(&mock, 100);

    tracker.set_value(74);
    assert_eq!(mock.sent_messages.borrow().len(), 0);

    tracker.set_value(75);
    assert_eq!(
        mock.sent_messages.borrow().last().unwrap(),
        "Warning: You've used up over 75% of your quota."
    );

    tracker.set_value(90);
    assert_eq!(
        mock.sent_messages.borrow().last().unwrap(),
        "Warning: You've used up over 90% of your quota."
    );

    tracker.set_value(100);
    assert_eq!(
        mock.sent_messages.borrow().last().unwrap(),
        "Error: You are over your quota!"
    );

    assert_eq!(mock.sent_messages.borrow().len(), 3);
}

#[test]
fn a_zero_quota_is_over_for_any_positive_value() {
    let mock = MockMessenger::new();
    let mut tracker = LimitTracker::new(&mock, 0);

    tracker.set_value(0);
    assert_eq!(mock.sent_messages.borrow().len(), 0);

    tracker.set_value(1);
    assert_eq!(
        mock.sent_messages.borrow().last().unwrap(),
        "Error: You are over your quota!"
    );
}

#[test]
fn quota_levels_match_the_thresholds() {
    assert_eq!(quota_level_of(0, 100), 0);
    assert_eq!(quota_level_of(74, 100), 0);
    assert_eq!(quota_level_of(75, 100), 1);
    assert_eq!(quota_level_of(89, 100), 1);
    assert_eq!(quota_level_of(90, 100), 2);
    assert_eq!(quota_level_of(99, 100), 2);
    assert_eq!(quota_level_of(100, 100), 3);
    assert_eq!(quota_level_of(101, 100), 3);
    assert_eq!(quota_level_of(3, 4), 1);
    assert_eq!(quota_level_of(9, 10), 2);
    assert_eq!(quota_level_of(usize::MAX, usize::MAX), 3);
    assert_eq!(quota_level_of(usize::MAX - 1, usize::MAX), 2);
}
