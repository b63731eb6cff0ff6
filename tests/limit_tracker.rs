use sm_pntrs::quota::{quota_warning, LimitTracker, Messenger, QuotaWarning};
use std::cell::RefCell;

struct MockMessenger {
    sent_messages: RefCell<Vec<String>>,
}

impl MockMessenger {
    fn new() -> MockMessenger {
        MockMessenger {
            sent_messages: RefCell::new(vec![]),
        }
    }
}

impl Messenger for MockMessenger {
    fn send(&self, message: &str) {
        self.sent_messages.borrow_mut().push(String::from(message));
    }
}

#[test]
fn it_sends_an_over_75_percent_warning_message() {
    let mock_messenger = MockMessenger::new();
    let mut limit_tracker = LimitTracker::new(&mock_messenger, 100);

    limit_tracker.set_value(80);

    assert_eq!(mock_messenger.sent_messages.borrow().len(), 1);
}

#[test]
fn sends_the_text_of_each_band() {
    let mock = MockMessenger::new();
    let mut tracker = LimitTracker::new(&mock, 100);
    tracker.set_value(74);
    tracker.set_value(75);
    tracker.set_value(90);
    tracker.set_value(100);
    tracker.set_value(250);
    let sent = mock.sent_messages.borrow();
    assert_eq!(
        *sent,
        vec![
            "Warning: You're at 75% of your quota!".to_string(),
            "Urgent: You're at 90% of your quota!".to_string(),
            "Error: You are over your quota!".to_string(),
            "Error: You are over your quota!".to_string(),
        ]
    );
}

#[test]
fn quota_warning_thresholds() {
    assert_eq!(quota_warning(0, 100), None);
    assert_eq!(quota_warning(74, 100), None);
    assert_eq!(quota_warning(75, 100), Some(QuotaWarning::Warning));
    assert_eq!(quota_warning(89, 100), Some(QuotaWarning::Warning));
    assert_eq!(quota_warning(90, 100), Some(QuotaWarning::Urgent));
    assert_eq!(quota_warning(99, 100), Some(QuotaWarning::Urgent));
    assert_eq!(quota_warning(100, 100), Some(QuotaWarning::OverQuota));
    assert_eq!(quota_warning(3, 4), Some(QuotaWarning::Warning));
    assert_eq!(quota_warning(usize::MAX - 1, usize::MAX), Some(QuotaWarning::Urgent));
}

#[test]
fn quota_warning_with_zero_max() {
    assert_eq!(quota_warning(0, 0), None);
    assert_eq!(quota_warning(1, 0), Some(QuotaWarning::OverQuota));
}

#[test]
fn nothing_sent_below_three_quarters() {
    let mock = MockMessenger::new();
    let mut tracker = LimitTracker::new(&mock, 8);
    tracker.set_value(5);
    assert_eq!(mock.sent_messages.borrow().len(), 0);
    tracker.set_value(6);
    assert_eq!(mock.sent_messages.borrow().len(), 1);
}
