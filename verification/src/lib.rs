//! A task board for small organisations.
//!
//! Members join an organisation, post tasks, claim them, hand them in and
//! have the result reviewed. Every record lives at an address of the ledger;
//! the rules that decide who may move a task from one stage to the next, and
//! the counters that follow from it, are stated as contracts and proved.

pub mod accounts;
pub mod error;
pub mod guard;
pub mod instructions;
pub mod key;
pub mod laws;
pub mod ledger;
pub mod state;
pub mod store;

pub use accounts::{AddMember, AssignTask, CreateTask, InitializeDao, ReviewTask, SubmitTask};
pub use anchor_lang::prelude::Pubkey;
pub use error::CustomError;
pub use guard::{authorize, Action};
pub use instructions::{
    add_member, assign_task, create_task, initialize_dao, review_task, submit_task,
};
pub use state::{DaoState, MemberState, TaskState, TaskStatus};
pub use store::{EntityStore, Record};
