//! The addresses that each operation is handed.

use anchor_lang::prelude::Pubkey;
use vstd::prelude::*;

verus! {

/// Addresses for founding an organisation.
#[derive(Clone, Copy, Debug)]
pub struct InitializeDao {
    /// Where the new organisation is to be stored.
    pub dao: Pubkey,
    /// The caller, who becomes the organisation's authority.
    pub authority: Pubkey,
}

/// Addresses for admitting a member.
#[derive(Clone, Copy, Debug)]
pub struct AddMember {
    /// The organisation that is joined.
    pub dao: Pubkey,
    /// Where the new membership is to be stored.
    pub member: Pubkey,
    /// The identity of the person who joins.
    pub user: Pubkey,
    /// The caller who submits the request.
    pub authority: Pubkey,
}

/// Addresses for posting a task.
#[derive(Clone, Copy, Debug)]
pub struct CreateTask {
    /// The organisation the task belongs to.
    pub dao: Pubkey,
    /// Where the new task is to be stored.
    pub task: Pubkey,
    /// The caller, recorded as the task's creator.
    pub authority: Pubkey,
}

/// Addresses for claiming a task.
#[derive(Clone, Copy, Debug)]
pub struct AssignTask {
    /// The task that is claimed.
    pub task: Pubkey,
    /// The membership that claims it.
    pub member: Pubkey,
    /// The caller who submits the request.
    pub user: Pubkey,
}

/// Addresses for handing a task in.
#[derive(Clone, Copy, Debug)]
pub struct SubmitTask {
    /// The task that is handed in.
    pub task: Pubkey,
    /// The membership that hands it in.
    pub member: Pubkey,
    /// The caller who submits the request.
    pub user: Pubkey,
}

/// Addresses for reviewing a task.
#[derive(Clone, Copy, Debug)]
pub struct ReviewTask {
    /// The task under review.
    pub task: Pubkey,
    /// The membership that is credited on approval.
    pub member: Pubkey,
    /// The caller who reviews.
    pub authority: Pubkey,
}

} // verus!
