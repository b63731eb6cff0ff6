use vstd::prelude::*;

verus! {

/// Where a tracker's messages go; callers supply their own.
pub trait Messenger {
    fn send(&self, msg: &str);
}

/// How close a value has come to its maximum.
#[derive(Debug, Clone, Copy, PartialEq, Eq, Structural)]
pub enum QuotaWarning {
    /// At or above the maximum.
    OverQuota,
    /// At 90% of the maximum or above.
    Urgent,
    /// At 75% of the maximum or above.
    Warning,
}

/// The warning due for `value` against `max`, the ratio value / max compared
/// exactly with 1, 9/10 and 3/4. A ratio 0 / 0 has no value and warns of nothing.
pub open spec fn quota_warning_of(value: int, max: int) -> Option<QuotaWarning> {
    if value == 0 && max == 0 {
        None
    } else if value >= max {
        Some(QuotaWarning::OverQuota)
    } else if 10 * value >= 9 * max {
        Some(QuotaWarning::Urgent)
    } else if 4 * value >= 3 * max {
        Some(QuotaWarning::Warning)
    } else {
        None
    }
}

/// The text sent for each warning.
pub open spec fn message_text(w: QuotaWarning) -> Seq<char> {
    match w {
        QuotaWarning::OverQuota => "Error: You are over your quota!"@,
        QuotaWarning::Urgent => "Urgent: You're at 90% of your quota!"@,
        QuotaWarning::Warning => "Warning: You're at 75% of your quota!"@,
    }
}

impl QuotaWarning {
    /// The text sent for this warning.
    pub fn message(&self) -> (m: &'static str)
        ensures
            m@ == message_text(*self),
    {
        match self {
            QuotaWarning::OverQuota => "Error: You are over your quota!",
            QuotaWarning::Urgent => "Urgent: You're at 90% of your quota!",
            QuotaWarning::Warning => "Warning: You're at 75% of your quota!",
        }
    }
}

/// The warning due for `value` against `max`.
pub fn quota_warning(value: usize, max: usize) -> (w: Option<QuotaWarning>)
    ensures
        w == quota_warning_of(value as int, max as int),
{
    let v = value as u128;
    let m = max as u128;
    if value == 0 && max == 0 {
        None
    } else if v >= m {
        Some(QuotaWarning::OverQuota)
    } else if 10 * v >= 9 * m {
        Some(QuotaWarning::Urgent)
    } else if 4 * v >= 3 * m {
        Some(QuotaWarning::Warning)
    } else {
        None
    }
}

/// Tracks a value against a maximum and tells its messenger how close it is.
pub struct LimitTracker<'a, T: Messenger> {
    messenger: &'a T,
    value: usize,
    max: usize,
}

impl<'a, T: Messenger> LimitTracker<'a, T> {
    pub closed spec fn value(&self) -> usize {
        self.value
    }

    pub closed spec fn max(&self) -> usize {
        self.max
    }

    pub closed spec fn messenger(&self) -> &'a T {
        self.messenger
    }

    /// A tracker at value 0 against `max`.
    pub fn new(messenger: &'a T, max: usize) -> (t: LimitTracker<'a, T>)
        ensures
            t.value() == 0,
            t.max() == max,
            t.messenger() == messenger,
    {
        LimitTracker { messenger, value: 0, max }
    }

    /// Records `value` and sends the messenger the text of the warning it is due,
    /// `quota_warning(value, max)`, if any; nothing is sent otherwise.
    pub fn set_value(&mut self, value: usize)
        ensures
            final(self).value() == value,
            final(self).max() == old(self).max(),
            final(self).messenger() == old(self).messenger(),
    {
        self.value = value;
        match quota_warning(self.value, self.max) {
            Some(w) => self.messenger.send(w.message()),
            None => {},
        }
    }
}

} // verus!
