//! The life cycle of a scheduled operation.

use vstd::prelude::*;

verus! {

/// Where an operation stands.
#[derive(Clone, Debug, PartialEq)]
pub enum TaskStatus {
    Pending,
    Running,
    Completed,
    Failed(String),
    Cancelled,
}

} // verus!
