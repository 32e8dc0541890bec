//! The four priority levels a task can carry.

use vstd::prelude::*;

verus! {

/// A task's priority. `NotSet` stands for a task that was never given one.
#[derive(Clone, Copy, Debug, PartialEq, Eq, Structural, Hash)]
pub enum Priority {
    NotSet,
    Low,
    Medium,
    High,
}

/// The remote service's absolute ordinal for a level: the most urgent level
/// is 1, an unset priority 4.
pub open spec fn spec_to_integer(p: Priority) -> int {
    match p {
        Priority::NotSet => 4,
        Priority::Low => 3,
        Priority::Medium => 2,
        Priority::High => 1,
    }
}

impl Priority {
    pub fn to_integer(&self) -> (r: u8)
        ensures
            r as int == spec_to_integer(*self),
    {
        match self {
            Priority::NotSet => 4,
            Priority::Low => 3,
            Priority::Medium => 2,
            Priority::High => 1,
        }
    }
}

} // verus!
