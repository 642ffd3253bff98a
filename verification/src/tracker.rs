//! A quota tracker that warns through a user-supplied [`Messenger`] as a
//! value approaches a maximum.  The thresholds are the exact ratios three
//! quarters, nine tenths, and the whole of the maximum; [`quota_level`] is
//! the common specification of which notice a value deserves.

use vstd::prelude::*;

verus! {

/// A sink for notices.  Users implement this; the library never promises
/// anything about what an implementation does with a message.
pub trait Messenger {
    fn send(&self, msg: &str);
}

/// How urgent a notice the pair `(value, max)` deserves: `3` over the whole
/// quota, `2` at nine tenths or more, `1` at three quarters or more, and `0`
/// below that.  A zero maximum is over quota for any positive value and
/// silent for zero.
pub open spec fn quota_level(value: int, max: int) -> int {
    if max > 0 && value >= max {
        3
    } else if max > 0 && 10 * value >= 9 * max {
        2
    } else if max > 0 && 4 * value >= 3 * max {
        1
    } else if max == 0 && value > 0 {
        3
    } else {
        0
    }
}

/// Computes [`quota_level`] on machine integers.
pub fn quota_level_of(value: usize, max: usize) -> (level: u8)
    ensures
        level as int == quota_level(value as int, max as int),
{
    if max == 0 {
        if value > 0 {
            3
        } else {
            0
        }
    } else if value >= max {
        3
    } else if (value as u128) * 10 >= (max as u128) * 9 {
        2
    } else if (value as u128) * 4 >= (max as u128) * 3 {
        1
    } else {
        0
    }
}

/// Tracks a value against a maximum and notifies the messenger when the
/// value crosses a quota threshold.
pub struct LimitTracker<'a, T: Messenger> {
    messenger: &'a T,
    value: usize,
    max: usize,
}

impl<'a, T> LimitTracker<'a, T> where T: Messenger {
    /// The tracked value, for specifications.
    pub closed spec fn spec_value(&self) -> usize {
        self.value
    }

    /// The maximum, for specifications.
    pub closed spec fn spec_max(&self) -> usize {
        self.max
    }

    /// A tracker that starts at zero.
    pub fn new(messenger: &'a T, max: usize) -> (tracker: LimitTracker<'a, T>)
        ensures
            tracker.spec_value() == 0,
            tracker.spec_max() == max,
    {
        LimitTracker { messenger, value: 0, max }
    }

    /// Records `value` and sends the notice that [`quota_level`] assigns to
    /// it: an error over the whole quota, a warning at nine tenths, a milder
    /// warning at three quarters, and nothing below that.
    pub fn set_value(&mut self, value: usize)
        ensures
            final(self).spec_value() == value,
            final(self).spec_max() == old(self).spec_max(),
    {
        self.value = value;
        let level = quota_level_of(value, self.max);
        if level == 3 {
            self.messenger.send("Error: You are over your quota!");
        } else if level == 2 {
            self.messenger.send("Warning: You've used up over 90% of your quota.");
        } else if level == 1 {
            self.messenger.send("Warning: You've used up over 75% of your quota.");
        }
    }
}

} // verus!
