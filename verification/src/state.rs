//! The three kinds of record, their mathematical views, and the steps that
//! a single record can take.

use crate::error::CustomError;
use crate::guard::{authorize, Action};
use anchor_lang::prelude::Pubkey;
use vstd::prelude::*;

verus! {

/// Room, in bytes, for the name of an organisation.
pub const MAX_NAME_BYTES: usize = 200;

/// Room, in bytes, for the display name of a member.
pub const MAX_USERNAME_BYTES: usize = 100;

/// Room, in bytes, for the title and the description of a task together.
pub const MAX_TASK_TEXT_BYTES: usize = 600;

/// The number of bytes that a text takes when stored, which is its length in UTF-8.
pub open spec fn byte_len(text: Seq<char>) -> nat {
    vstd::utf8::encode_utf8(text).len()
}

/// Whether a text is short enough to name an organisation.
pub open spec fn name_fits(name: Seq<char>) -> bool {
    byte_len(name) <= MAX_NAME_BYTES
}

/// Whether a text is short enough to be a member's display name.
pub open spec fn username_fits(username: Seq<char>) -> bool {
    byte_len(username) <= MAX_USERNAME_BYTES
}

/// Whether a title and a description together are short enough for a task.
pub open spec fn task_text_fits(title: Seq<char>, description: Seq<char>) -> bool {
    byte_len(title) + byte_len(description) <= MAX_TASK_TEXT_BYTES
}

/// Measures a text in bytes.
pub fn text_bytes(text: &String) -> (n: usize)
    ensures
        n == byte_len(text@),
{
    text.as_str().as_bytes().len()
}

/// The stage a task has reached.
#[derive(Clone, Copy, Debug, PartialEq, Eq, Structural)]
pub enum TaskStatus {
    /// Nobody holds the task; it can be claimed.
    Open,
    /// A member has claimed the task and works on it.
    InProgress,
    /// The assignee has handed the task in and waits for a verdict.
    PendingReview,
    /// The work was approved.
    Completed,
}

/// An organisation.
#[derive(Debug, PartialEq, Eq)]
pub struct DaoState {
    /// The founder and administrator; never changes.
    pub authority: Pubkey,
    /// Display name.
    pub name: String,
    /// The founder plus every membership admitted since.
    pub member_count: u64,
}

/// One person's membership in one organisation.
#[derive(Debug, PartialEq, Eq)]
pub struct MemberState {
    /// The organisation that was joined; never changes.
    pub dao: Pubkey,
    /// The identity of the member; never changes.
    pub authority: Pubkey,
    /// Display name.
    pub username: String,
    /// How many approved reviews have credited this member.
    pub tasks_completed: u64,
}

/// A unit of work within an organisation.
#[derive(Debug, PartialEq, Eq)]
pub struct TaskState {
    /// The organisation the task belongs to; never changes.
    pub dao: Pubkey,
    /// Who posted the task; never changes.
    pub creator: Pubkey,
    /// Short summary.
    pub title: String,
    /// What is to be done.
    pub description: String,
    /// The stage the task has reached.
    pub status: TaskStatus,
    /// The membership that holds the task, if any.
    pub assignee: Option<Pubkey>,
}

/// What an organisation's record says.
pub struct DaoView {
    pub authority: Pubkey,
    pub name: Seq<char>,
    pub member_count: nat,
}

/// What a membership's record says.
pub struct MemberView {
    pub dao: Pubkey,
    pub authority: Pubkey,
    pub username: Seq<char>,
    pub tasks_completed: nat,
}

/// What a task's record says.
pub struct TaskView {
    pub dao: Pubkey,
    pub creator: Pubkey,
    pub title: Seq<char>,
    pub description: Seq<char>,
    pub status: TaskStatus,
    pub assignee: Option<Pubkey>,
}

impl DaoView {
    /// A newly founded organisation: the founder is its first member.
    pub open spec fn founded(authority: Pubkey, name: Seq<char>) -> DaoView {
        DaoView { authority, name, member_count: 1 }
    }

    /// The organisation after one more admission.
    pub open spec fn with_new_member(self) -> DaoView {
        DaoView { member_count: self.member_count + 1, ..self }
    }

    /// The name has room in the record and the founder is counted.
    pub open spec fn well_formed(self) -> bool {
        name_fits(self.name) && self.member_count >= 1
    }
}

impl MemberView {
    /// A newly admitted member, with nothing completed yet.
    pub open spec fn joined(dao: Pubkey, authority: Pubkey, username: Seq<char>) -> MemberView {
        MemberView { dao, authority, username, tasks_completed: 0 }
    }

    /// The member after one more approved task.
    pub open spec fn credited(self) -> MemberView {
        MemberView { tasks_completed: self.tasks_completed + 1, ..self }
    }

    /// The display name has room in the record.
    pub open spec fn well_formed(self) -> bool {
        username_fits(self.username)
    }
}

impl TaskView {
    /// A newly posted task: open, held by nobody.
    pub open spec fn created(
        dao: Pubkey,
        creator: Pubkey,
        title: Seq<char>,
        description: Seq<char>,
    ) -> TaskView {
        TaskView { dao, creator, title, description, status: TaskStatus::Open, assignee: None }
    }

    /// The task after `member` has claimed it.
    pub open spec fn claimed_by(self, member: Pubkey) -> TaskView {
        TaskView { status: TaskStatus::InProgress, assignee: Some(member), ..self }
    }

    /// The task after its assignee has handed it in.
    pub open spec fn submitted(self) -> TaskView {
        TaskView { status: TaskStatus::PendingReview, ..self }
    }

    /// The task after a review: completed on approval, open again on
    /// rejection, and held by nobody either way.
    pub open spec fn reviewed(self, approved: bool) -> TaskView {
        if approved {
            TaskView { status: TaskStatus::Completed, assignee: None, ..self }
        } else {
            TaskView { status: TaskStatus::Open, assignee: None, ..self }
        }
    }

    /// The task is being worked on or waits for its review.
    pub open spec fn in_hand(self) -> bool {
        self.status is InProgress || self.status is PendingReview
    }

    /// Somebody holds the task exactly while it is in hand.
    pub open spec fn assignee_tracks_status(self) -> bool {
        self.assignee is Some <==> self.in_hand()
    }

    /// What every step keeps true of a task: the texts have room in the
    /// record, and somebody holds the task exactly while it is in hand.
    pub open spec fn well_formed(self) -> bool {
        &&& task_text_fits(self.title, self.description)
        &&& self.assignee_tracks_status()
    }
}

impl View for DaoState {
    type V = DaoView;

    open spec fn view(&self) -> DaoView {
        DaoView {
            authority: self.authority,
            name: self.name@,
            member_count: self.member_count as nat,
        }
    }
}

impl View for MemberState {
    type V = MemberView;

    open spec fn view(&self) -> MemberView {
        MemberView {
            dao: self.dao,
            authority: self.authority,
            username: self.username@,
            tasks_completed: self.tasks_completed as nat,
        }
    }
}

impl View for TaskState {
    type V = TaskView;

    open spec fn view(&self) -> TaskView {
        TaskView {
            dao: self.dao,
            creator: self.creator,
            title: self.title@,
            description: self.description@,
            status: self.status,
            assignee: self.assignee,
        }
    }
}

impl Clone for DaoState {
    fn clone(&self) -> (copy: Self)
        ensures
            copy == *self,
    {
        DaoState {
            authority: self.authority,
            name: self.name.clone(),
            member_count: self.member_count,
        }
    }
}

impl Clone for MemberState {
    fn clone(&self) -> (copy: Self)
        ensures
            copy == *self,
    {
        MemberState {
            dao: self.dao,
            authority: self.authority,
            username: self.username.clone(),
            tasks_completed: self.tasks_completed,
        }
    }
}

impl Clone for TaskState {
    fn clone(&self) -> (copy: Self)
        ensures
            copy == *self,
    {
        TaskState {
            dao: self.dao,
            creator: self.creator,
            title: self.title.clone(),
            description: self.description.clone(),
            status: self.status,
            assignee: self.assignee,
        }
    }
}

impl DaoState {
    /// Bytes that a stored organisation takes up.
    pub const LEN: usize = 8 + 32 + 200 + 8;

    /// Founds an organisation with `authority` as its first member.
    /// Rejected exactly when the name has no room in the record.
    pub fn new(authority: Pubkey, name: String) -> (r: Result<DaoState, CustomError>)
        ensures
            match r {
                Ok(dao) => name_fits(name@) && dao@ == DaoView::founded(authority, name@)
                    && dao@.well_formed(),
                Err(e) => e == CustomError::FieldTooLong && !name_fits(name@),
            },
    {
        if text_bytes(&name) > MAX_NAME_BYTES {
            return Err(CustomError::FieldTooLong);
        }
        Ok(DaoState { authority, name, member_count: 1 })
    }

    /// Counts one more member.
    pub fn count_member(&mut self)
        requires
            old(self).member_count < u64::MAX,
        ensures
            final(self)@ == old(self)@.with_new_member(),
    {
        self.member_count = self.member_count + 1;
    }

    /// Admits `user` to this organisation, which is stored at `dao_key`:
    /// hands back the new membership and counts it. Rejected, with the
    /// organisation untouched, exactly when the display name has no room.
    pub fn enroll(&mut self, dao_key: Pubkey, user: Pubkey, username: String) -> (r: Result<
        MemberState,
        CustomError,
    >)
        requires
            username_fits(username@) ==> old(self).member_count < u64::MAX,
        ensures
            match r {
                Ok(member) => username_fits(username@) && member@ == MemberView::joined(
                    dao_key,
                    user,
                    username@,
                ) && final(self)@ == old(self)@.with_new_member(),
                Err(e) => e == CustomError::FieldTooLong && !username_fits(username@) && *final(self) == *old(self),
            },
    {
        match MemberState::new(dao_key, user, username) {
            Ok(member) => {
                self.count_member();
                Ok(member)
            },
            Err(e) => Err(e),
        }
    }
}

impl MemberState {
    /// Bytes that a stored membership takes up.
    pub const LEN: usize = 8 + 32 + 32 + 100 + 8;

    /// Records that `authority` has joined the organisation at `dao`.
    /// Rejected exactly when the display name has no room in the record.
    pub fn new(dao: Pubkey, authority: Pubkey, username: String) -> (r: Result<
        MemberState,
        CustomError,
    >)
        ensures
            match r {
                Ok(member) => username_fits(username@) && member@ == MemberView::joined(
                    dao,
                    authority,
                    username@,
                ),
                Err(e) => e == CustomError::FieldTooLong && !username_fits(username@),
            },
    {
        if text_bytes(&username) > MAX_USERNAME_BYTES {
            return Err(CustomError::FieldTooLong);
        }
        Ok(MemberState { dao, authority, username, tasks_completed: 0 })
    }

    /// Credits the member with one more completed task.
    pub fn credit(&mut self)
        requires
            old(self).tasks_completed < u64::MAX,
        ensures
            final(self)@ == old(self)@.credited(),
    {
        self.tasks_completed = self.tasks_completed + 1;
    }
}

impl TaskState {
    /// Bytes that a stored task takes up.
    pub const LEN: usize = 8 + 32 + 32 + 100 + 500 + 1 + 33;

    /// Posts a task in the organisation at `dao`: open, held by nobody.
    /// Rejected exactly when title and description together have no room.
    pub fn new(dao: Pubkey, creator: Pubkey, title: String, description: String) -> (r: Result<
        TaskState,
        CustomError,
    >)
        ensures
            match r {
                Ok(task) => task_text_fits(title@, description@) && task@ == TaskView::created(
                    dao,
                    creator,
                    title@,
                    description@,
                ) && task@.assignee_tracks_status() && task@.well_formed(),
                Err(e) => e == CustomError::FieldTooLong && !task_text_fits(title@, description@),
            },
    {
        let title_bytes: usize = text_bytes(&title);
        let description_bytes: usize = text_bytes(&description);
        if title_bytes > MAX_TASK_TEXT_BYTES || description_bytes > MAX_TASK_TEXT_BYTES
            - title_bytes {
            return Err(CustomError::FieldTooLong);
        }
        Ok(TaskState { dao, creator, title, description, status: TaskStatus::Open, assignee: None })
    }

    /// Lets `member` claim the task. Only an open task can be claimed: any
    /// other is left exactly as it was.
    pub fn assign(&mut self, member: Pubkey) -> (r: Result<(), CustomError>)
        ensures
            match r {
                Ok(()) => old(self)@.status is Open && final(self)@ == old(self)@.claimed_by(
                    member,
                ) && final(self)@.assignee_tracks_status(),
                Err(e) => e == CustomError::TaskNotAvailable && !(old(self)@.status is Open)
                    && *final(self) == *old(self),
            },
            old(self)@.well_formed() ==> final(self)@.well_formed(),
    {
        match self.status {
            TaskStatus::Open => {
                self.status = TaskStatus::InProgress;
                self.assignee = Some(member);
                Ok(())
            },
            _ => Err(CustomError::TaskNotAvailable),
        }
    }

    /// Hands the task in on behalf of `member`. Only the membership that
    /// holds the task may do so: for any other the task is left exactly as
    /// it was. The caller's own identity plays no part.
    pub fn submit(&mut self, caller: &Pubkey, member: &Pubkey) -> (r: Result<(), CustomError>)
        ensures
            match r {
                Ok(()) => old(self)@.assignee == Some(*member) && final(self)@
                    == old(self)@.submitted() && final(self)@.assignee_tracks_status(),
                Err(e) => e == CustomError::NotAssigned && old(self)@.assignee != Some(*member)
                    && *final(self) == *old(self),
            },
            old(self)@.well_formed() ==> final(self)@.well_formed(),
    {
        if !authorize(Action::SubmitTask, caller, Some(&*self), Some(member)) {
            return Err(CustomError::NotAssigned);
        }
        self.status = TaskStatus::PendingReview;
        Ok(())
    }

    /// Records the verdict of a review on the task itself: completed on
    /// approval, open again on rejection, and held by nobody either way.
    /// The stage the task was in is not asked for.
    pub fn resolve(&mut self, approved: bool)
        ensures
            final(self)@ == old(self)@.reviewed(approved),
            final(self)@.assignee_tracks_status(),
            old(self)@.well_formed() ==> final(self)@.well_formed(),
    {
        if approved {
            self.status = TaskStatus::Completed;
        } else {
            self.status = TaskStatus::Open;
        }
        self.assignee = None;
    }

    /// Reviews the task: on approval it is completed and `member` is
    /// credited with it; on rejection it is open again and `member` is left
    /// exactly as it was. Either way nobody holds the task afterwards.
    pub fn review(&mut self, member: &mut MemberState, approved: bool)
        requires
            approved ==> old(member).tasks_completed < u64::MAX,
        ensures
            final(self)@ == old(self)@.reviewed(approved),
            approved ==> final(member)@ == old(member)@.credited(),
            !approved ==> *final(member) == *old(member),
            final(self)@.assignee_tracks_status(),
            old(self)@.well_formed() ==> final(self)@.well_formed(),
    {
        self.resolve(approved);
        if approved {
            member.credit();
        }
    }
}

} // verus!
