//! Progress of a long operation, and the events reported about it.

use vstd::prelude::*;

verus! {

/// An event about an operation: it started, advanced, or ended.
pub enum ProgressUpdate {
    Started { task_type: String, total_items: usize },
    Progress { current: usize, total: usize, message: String },
    Completed { message: String },
    Failed { error: String },
    Cancelled,
}

/// How far an operation has come: items done out of a total, and a message.
pub struct ProgressTracker {
    current: usize,
    total: usize,
    message: String,
}

/// The whole percentage that `current` is of `total` (0 when the total is
/// 0), at most 255.
pub open spec fn percentage_of(current: nat, total: nat) -> nat {
    if total == 0 {
        0
    } else if current * 100 / total > 255 {
        255
    } else {
        current * 100 / total
    }
}

impl ProgressTracker {
    pub closed spec fn current_spec(&self) -> usize {
        self.current
    }

    pub closed spec fn total_spec(&self) -> usize {
        self.total
    }

    pub closed spec fn message_spec(&self) -> Seq<char> {
        self.message@
    }

    /// Nothing done yet out of `total`, with an empty message.
    pub fn new(total: usize) -> (r: Self)
        ensures
            r.current_spec() == 0,
            r.total_spec() == total,
            r.message_spec().len() == 0,
    {
        ProgressTracker { current: 0, total, message: String::new() }
    }

    /// Sets the items done and the message.
    pub fn update(&mut self, current: usize, message: String)
        ensures
            final(self).current_spec() == current,
            final(self).total_spec() == old(self).total_spec(),
            final(self).message_spec() == message@,
    {
        self.current = current;
        self.message = message;
    }

    /// One more item done.
    pub fn increment(&mut self)
        requires
            old(self).current_spec() < usize::MAX,
        ensures
            final(self).current_spec() == old(self).current_spec() + 1,
            final(self).total_spec() == old(self).total_spec(),
            final(self).message_spec() == old(self).message_spec(),
    {
        self.current = self.current + 1;
    }

    /// Sets the message.
    pub fn set_message(&mut self, message: String)
        ensures
            final(self).current_spec() == old(self).current_spec(),
            final(self).total_spec() == old(self).total_spec(),
            final(self).message_spec() == message@,
    {
        self.message = message;
    }

    /// The whole percentage done.
    pub fn percentage(&self) -> (r: u8)
        ensures
            r as nat == percentage_of(self.current_spec() as nat, self.total_spec() as nat),
    {
        if self.total == 0 {
            return 0;
        }
        let p: u128 = (self.current as u128) * 100 / (self.total as u128);
        if p > 255 {
            255
        } else {
            p as u8
        }
    }

    pub fn current(&self) -> (r: usize)
        ensures
            r == self.current_spec(),
    {
        self.current
    }

    pub fn total(&self) -> (r: usize)
        ensures
            r == self.total_spec(),
    {
        self.total
    }

    pub fn message(&self) -> (r: &str)
        ensures
            r@ == self.message_spec(),
    {
        self.message.as_str()
    }

    /// The progress event for the current state.
    pub fn to_update(&self) -> (r: ProgressUpdate)
        ensures
            r matches ProgressUpdate::Progress { current, total, message } && current
                == self.current_spec() && total == self.total_spec() && message@
                == self.message_spec(),
    {
        ProgressUpdate::Progress {
            current: self.current,
            total: self.total,
            message: self.message.clone(),
        }
    }
}

} // verus!
