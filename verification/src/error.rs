//! The reasons for which an operation is turned down.

use vstd::prelude::*;

verus! {

/// Why an operation was rejected. A rejected operation changes nothing.
#[derive(Clone, Copy, Debug, PartialEq, Eq, Structural)]
pub enum CustomError {
    /// A claim was made on a task that is not open.
    TaskNotAvailable,
    /// A task was handed in by someone other than its assignee.
    NotAssigned,
    /// An organisation was to be created at an address already in use.
    AlreadyInitialized,
    /// A membership was to be created at an address already in use.
    DuplicateMember,
    /// A record was to be created at an address already in use.
    SlotOccupied,
    /// A text field is longer than its record has room for.
    FieldTooLong,
    /// An address that an operation refers to holds no record of the kind it needs.
    NotFound,
}

} // verus!
