//! Who may do what.

use crate::key::same_key;
use crate::state::{TaskState, TaskView};
use anchor_lang::prelude::Pubkey;
use vstd::prelude::*;

verus! {

/// The operations that a caller can ask for.
#[derive(Clone, Copy, Debug, PartialEq, Eq, Structural)]
pub enum Action {
    /// Founding an organisation.
    InitializeDao,
    /// Admitting a member.
    AddMember,
    /// Posting a task.
    CreateTask,
    /// Claiming a task.
    AssignTask,
    /// Handing a task in.
    SubmitTask,
    /// Reviewing a task.
    ReviewTask,
}

/// The one rule there is: a task is handed in by the membership that holds
/// it. Every other action is open to every caller, and no rule reads the
/// caller's own identity.
pub open spec fn permits(
    action: Action,
    caller: Pubkey,
    task: Option<TaskView>,
    member: Option<Pubkey>,
) -> bool {
    action is SubmitTask ==> task is Some && member is Some && task->0.assignee == member
}

/// Whether `member` is the membership that holds `task`.
pub fn is_assignee(task: &TaskState, member: &Pubkey) -> (held: bool)
    ensures
        held == (task@.assignee == Some(*member)),
{
    match &task.assignee {
        Some(assignee) => same_key(assignee, member),
        None => false,
    }
}

/// Decides whether `caller` may perform `action` on the records involved:
/// `true` to allow, `false` to deny.
pub fn authorize(
    action: Action,
    caller: &Pubkey,
    task: Option<&TaskState>,
    member: Option<&Pubkey>,
) -> (allow: bool)
    ensures
        allow == permits(
            action,
            *caller,
            match task {
                Some(t) => Some(t@),
                None => None,
            },
            match member {
                Some(m) => Some(*m),
                None => None,
            },
        ),
{
    match action {
        Action::SubmitTask => match (task, member) {
            (Some(t), Some(m)) => is_assignee(t, m),
            _ => false,
        },
        _ => true,
    }
}

} // verus!
