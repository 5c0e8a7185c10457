//! The six operations of the board, each applied to the store as one step
//! that either takes effect in full or is rejected and changes nothing.
//!
//! For each operation two spec functions say what it does: its outcome on a
//! given store, and the store it leaves behind.

use crate::accounts::{AddMember, AssignTask, CreateTask, InitializeDao, ReviewTask, SubmitTask};
use crate::error::CustomError;
use crate::ledger::{
    lemma_admission_consistent, lemma_credit_consistent, lemma_founding_consistent,
    lemma_members_bounded, lemma_task_consistent, well_formed,
};
use crate::state::{
    name_fits, task_text_fits, username_fits, DaoState, DaoView, MemberState, MemberView,
    TaskState, TaskStatus, TaskView,
};
use crate::store::{dao_at, member_at, task_at, EntityStore, Record, RecordView, StoreView};
use anchor_lang::prelude::Pubkey;
use vstd::prelude::*;

verus! {

/// Founding is rejected when the address is in use, then when the name has
/// no room; otherwise the new organisation's address is handed back.
pub open spec fn initialize_dao_outcome(store: StoreView, ctx: InitializeDao, name: Seq<char>)
    -> Result<Pubkey, CustomError> {
    if store.dom().contains(ctx.dao) {
        Err(CustomError::AlreadyInitialized)
    } else if !name_fits(name) {
        Err(CustomError::FieldTooLong)
    } else {
        Ok(ctx.dao)
    }
}

/// The store after founding: the new organisation stands at its address,
/// with the caller as authority and first member.
pub open spec fn after_initialize_dao(store: StoreView, ctx: InitializeDao, name: Seq<char>)
    -> StoreView {
    if initialize_dao_outcome(store, ctx, name) is Ok {
        store.insert(ctx.dao, RecordView::Dao(DaoView::founded(ctx.authority, name)))
    } else {
        store
    }
}

/// Founds an organisation at `ctx.dao`; the caller becomes its authority.
pub fn initialize_dao(store: &mut EntityStore, ctx: InitializeDao, name: String) -> (r: Result<
    Pubkey,
    CustomError,
>)
    requires
        well_formed(old(store)),
    ensures
        well_formed(final(store)),
        r == initialize_dao_outcome(old(store)@, ctx, name@),
        final(store)@ == after_initialize_dao(old(store)@, ctx, name@),
        r is Ok ==> dao_at(final(store)@, ctx.dao) is Some && dao_at(
            final(store)@,
            ctx.dao,
        )->0.member_count == 1,
{
    if store.contains(&ctx.dao) {
        return Err(CustomError::AlreadyInitialized);
    }
    let dao = match DaoState::new(ctx.authority, name) {
        Ok(dao) => dao,
        Err(e) => {
            return Err(e);
        },
    };
    proof {
        lemma_founding_consistent(store@, ctx.dao, dao@);
    }
    match store.create(ctx.dao, Record::Dao(dao)) {
        Ok(()) => Ok(ctx.dao),
        Err(_) => Err(CustomError::AlreadyInitialized),
    }
}

/// Admission is rejected when no organisation stands at `ctx.dao`, then
/// when the membership's address already holds a membership or is in use
/// otherwise, then when the display name has no room; otherwise the new
/// membership's address is handed back. Who the caller is plays no part.
pub open spec fn add_member_outcome(store: StoreView, ctx: AddMember, username: Seq<char>)
    -> Result<Pubkey, CustomError> {
    if dao_at(store, ctx.dao) is None {
        Err(CustomError::NotFound)
    } else if member_at(store, ctx.member) is Some {
        Err(CustomError::DuplicateMember)
    } else if store.dom().contains(ctx.member) {
        Err(CustomError::SlotOccupied)
    } else if !username_fits(username) {
        Err(CustomError::FieldTooLong)
    } else {
        Ok(ctx.member)
    }
}

/// The store after an admission: the new membership stands at its address
/// and its organisation counts one member more.
pub open spec fn after_add_member(store: StoreView, ctx: AddMember, username: Seq<char>)
    -> StoreView {
    if add_member_outcome(store, ctx, username) is Ok {
        store.insert(
            ctx.member,
            RecordView::Member(MemberView::joined(ctx.dao, ctx.user, username)),
        ).insert(ctx.dao, RecordView::Dao(dao_at(store, ctx.dao)->0.with_new_member()))
    } else {
        store
    }
}

/// Admits `ctx.user` to the organisation at `ctx.dao`, with the membership
/// stored at `ctx.member`.
pub fn add_member(store: &mut EntityStore, ctx: AddMember, username: String) -> (r: Result<
    Pubkey,
    CustomError,
>)
    requires
        well_formed(old(store)),
    ensures
        well_formed(final(store)),
        r == add_member_outcome(old(store)@, ctx, username@),
        final(store)@ == after_add_member(old(store)@, ctx, username@),
        r is Ok ==> dao_at(final(store)@, ctx.dao)->0.member_count == dao_at(
            old(store)@,
            ctx.dao,
        )->0.member_count + 1,
{
    if store.dao(&ctx.dao).is_none() {
        return Err(CustomError::NotFound);
    }
    match store.get(&ctx.member) {
        Some(Record::Member(_)) => {
            return Err(CustomError::DuplicateMember);
        },
        Some(_) => {
            return Err(CustomError::SlotOccupied);
        },
        None => {},
    }
    let member = match MemberState::new(ctx.dao, ctx.user, username) {
        Ok(member) => member,
        Err(e) => {
            return Err(e);
        },
    };
    let ghost before = store@;
    let ghost joined = member@;
    match store.create(ctx.member, Record::Member(member)) {
        Ok(()) => {},
        Err(e) => {
            return Err(e);
        },
    }
    proof {
        store.lemma_size();
        lemma_members_bounded(before, ctx.dao);
    }
    match store.dao_mut(&ctx.dao) {
        Some(dao) => {
            dao.count_member();
        },
        None => {},
    }
    proof {
        lemma_admission_consistent(before, ctx.dao, ctx.member, joined);
    }
    Ok(ctx.member)
}

/// Posting is rejected when no organisation stands at `ctx.dao`, then when
/// the task's address is in use, then when title and description have no
/// room; otherwise the new task's address is handed back.
pub open spec fn create_task_outcome(
    store: StoreView,
    ctx: CreateTask,
    title: Seq<char>,
    description: Seq<char>,
) -> Result<Pubkey, CustomError> {
    if dao_at(store, ctx.dao) is None {
        Err(CustomError::NotFound)
    } else if store.dom().contains(ctx.task) {
        Err(CustomError::SlotOccupied)
    } else if !task_text_fits(title, description) {
        Err(CustomError::FieldTooLong)
    } else {
        Ok(ctx.task)
    }
}

/// The store after posting: the new task stands at its address, open and
/// held by nobody, with the caller as its creator.
pub open spec fn after_create_task(
    store: StoreView,
    ctx: CreateTask,
    title: Seq<char>,
    description: Seq<char>,
) -> StoreView {
    if create_task_outcome(store, ctx, title, description) is Ok {
        store.insert(
            ctx.task,
            RecordView::Task(TaskView::created(ctx.dao, ctx.authority, title, description)),
        )
    } else {
        store
    }
}

/// Posts a task in the organisation at `ctx.dao`, stored at `ctx.task`.
pub fn create_task(
    store: &mut EntityStore,
    ctx: CreateTask,
    title: String,
    description: String,
) -> (r: Result<Pubkey, CustomError>)
    requires
        well_formed(old(store)),
    ensures
        well_formed(final(store)),
        r == create_task_outcome(old(store)@, ctx, title@, description@),
        final(store)@ == after_create_task(old(store)@, ctx, title@, description@),
        r is Ok ==> task_at(final(store)@, ctx.task) is Some && task_at(
            final(store)@,
            ctx.task,
        )->0.assignee_tracks_status(),
{
    if store.dao(&ctx.dao).is_none() {
        return Err(CustomError::NotFound);
    }
    if store.contains(&ctx.task) {
        return Err(CustomError::SlotOccupied);
    }
    let task = match TaskState::new(ctx.dao, ctx.authority, title, description) {
        Ok(task) => task,
        Err(e) => {
            return Err(e);
        },
    };
    proof {
        lemma_task_consistent(store@, ctx.task, task@);
    }
    match store.create(ctx.task, Record::Task(task)) {
        Ok(()) => Ok(ctx.task),
        Err(_) => Err(CustomError::SlotOccupied),
    }
}

/// A claim is rejected when no task stands at `ctx.task`, then when the
/// task is not open, then when no membership stands at `ctx.member`.
/// Neither the caller nor the organisation of the membership plays a part.
pub open spec fn assign_task_outcome(store: StoreView, ctx: AssignTask) -> Result<
    (),
    CustomError,
> {
    match task_at(store, ctx.task) {
        None => Err(CustomError::NotFound),
        Some(task) => if !(task.status is Open) {
            Err(CustomError::TaskNotAvailable)
        } else if member_at(store, ctx.member) is None {
            Err(CustomError::NotFound)
        } else {
            Ok(())
        },
    }
}

/// The store after a claim: the task is in progress and held by the
/// membership.
pub open spec fn after_assign_task(store: StoreView, ctx: AssignTask) -> StoreView {
    if assign_task_outcome(store, ctx) is Ok {
        store.insert(
            ctx.task,
            RecordView::Task(task_at(store, ctx.task)->0.claimed_by(ctx.member)),
        )
    } else {
        store
    }
}

/// Lets the membership at `ctx.member` claim the task at `ctx.task`.
pub fn assign_task(store: &mut EntityStore, ctx: AssignTask) -> (r: Result<(), CustomError>)
    requires
        well_formed(old(store)),
    ensures
        well_formed(final(store)),
        r == assign_task_outcome(old(store)@, ctx),
        final(store)@ == after_assign_task(old(store)@, ctx),
        task_at(old(store)@, ctx.task) matches Some(task) && !(task.status is Open) ==> {
            &&& r is Err
            &&& r->Err_0 == CustomError::TaskNotAvailable
            &&& final(store)@ == old(store)@
        },
        r is Ok ==> task_at(final(store)@, ctx.task) is Some && task_at(
            final(store)@,
            ctx.task,
        )->0.assignee_tracks_status(),
{
    match store.task(&ctx.task) {
        None => {
            return Err(CustomError::NotFound);
        },
        Some(task) => match task.status {
            TaskStatus::Open => {},
            _ => {
                return Err(CustomError::TaskNotAvailable);
            },
        },
    }
    if store.member(&ctx.member).is_none() {
        return Err(CustomError::NotFound);
    }
    let ghost before = store@;
    let r = match store.task_mut(&ctx.task) {
        Some(task) => task.assign(ctx.member),
        None => Err(CustomError::NotFound),
    };
    proof {
        lemma_task_consistent(
            before,
            ctx.task,
            task_at(before, ctx.task)->0.claimed_by(ctx.member),
        );
        assert(r->Ok_0 == ());
    }
    r
}

/// Handing in is rejected when no task stands at `ctx.task`, then when the
/// task is not held by the membership at `ctx.member`. The stage of the
/// task and the caller play no part.
pub open spec fn submit_task_outcome(store: StoreView, ctx: SubmitTask) -> Result<
    (),
    CustomError,
> {
    match task_at(store, ctx.task) {
        None => Err(CustomError::NotFound),
        Some(task) => if task.assignee != Some(ctx.member) {
            Err(CustomError::NotAssigned)
        } else {
            Ok(())
        },
    }
}

/// The store after handing in: the task waits for its review.
pub open spec fn after_submit_task(store: StoreView, ctx: SubmitTask) -> StoreView {
    if submit_task_outcome(store, ctx) is Ok {
        store.insert(ctx.task, RecordView::Task(task_at(store, ctx.task)->0.submitted()))
    } else {
        store
    }
}

/// Hands in the task at `ctx.task` on behalf of the membership at
/// `ctx.member`.
pub fn submit_task(store: &mut EntityStore, ctx: SubmitTask) -> (r: Result<(), CustomError>)
    requires
        well_formed(old(store)),
    ensures
        well_formed(final(store)),
        r == submit_task_outcome(old(store)@, ctx),
        final(store)@ == after_submit_task(old(store)@, ctx),
        task_at(old(store)@, ctx.task) matches Some(task) && task.assignee != Some(ctx.member)
            ==> {
            &&& r is Err
            &&& r->Err_0 == CustomError::NotAssigned
            &&& final(store)@ == old(store)@
        },
        r is Ok ==> task_at(final(store)@, ctx.task) is Some && task_at(
            final(store)@,
            ctx.task,
        )->0.assignee_tracks_status(),
{
    let ghost before = store@;
    let r = match store.task_mut(&ctx.task) {
        Some(task) => task.submit(&ctx.user, &ctx.member),
        None => Err(CustomError::NotFound),
    };
    proof {
        if r is Ok {
            lemma_task_consistent(before, ctx.task, task_at(before, ctx.task)->0.submitted());
            assert(r->Ok_0 == ());
        } else {
            assert(store@ =~= before);
        }
    }
    r
}

/// A review is rejected only when no task stands at `ctx.task` or no
/// membership at `ctx.member`. Neither the stage of the task, nor who holds
/// it, nor who the caller is plays a part.
pub open spec fn review_task_outcome(store: StoreView, ctx: ReviewTask) -> Result<
    (),
    CustomError,
> {
    if task_at(store, ctx.task) is None || member_at(store, ctx.member) is None {
        Err(CustomError::NotFound)
    } else {
        Ok(())
    }
}

/// The store after a review. On approval the task is completed and the
/// membership is credited with it; on rejection the task is open again and
/// the membership is as it was. Either way nobody holds the task.
pub open spec fn after_review_task(store: StoreView, ctx: ReviewTask, approved: bool)
    -> StoreView {
    if review_task_outcome(store, ctx) is Ok {
        let task = task_at(store, ctx.task)->0;
        let member = member_at(store, ctx.member)->0;
        store.insert(ctx.task, RecordView::Task(task.reviewed(approved))).insert(
            ctx.member,
            RecordView::Member(
                if approved {
                    member.credited()
                } else {
                    member
                },
            ),
        )
    } else {
        store
    }
}

/// Reviews the task at `ctx.task` and, on approval, credits the membership
/// at `ctx.member`.
pub fn review_task(store: &mut EntityStore, ctx: ReviewTask, approved: bool) -> (r: Result<
    (),
    CustomError,
>)
    requires
        well_formed(old(store)),
        approved && review_task_outcome(old(store)@, ctx) is Ok ==> member_at(
            old(store)@,
            ctx.member,
        )->0.tasks_completed < u64::MAX,
    ensures
        well_formed(final(store)),
        r == review_task_outcome(old(store)@, ctx),
        final(store)@ == after_review_task(old(store)@, ctx, approved),
        r is Ok && approved ==> {
            &&& task_at(final(store)@, ctx.task)->0.status is Completed
            &&& task_at(final(store)@, ctx.task)->0.assignee is None
            &&& member_at(final(store)@, ctx.member)->0.tasks_completed == member_at(
                old(store)@,
                ctx.member,
            )->0.tasks_completed + 1
        },
        r is Ok && !approved ==> {
            &&& task_at(final(store)@, ctx.task)->0.status is Open
            &&& task_at(final(store)@, ctx.task)->0.assignee is None
            &&& member_at(final(store)@, ctx.member) == member_at(old(store)@, ctx.member)
        },
        forall|key: Pubkey|
            key != ctx.member ==> #[trigger] member_at(final(store)@, key) == member_at(
                old(store)@,
                key,
            ),
        r is Ok ==> task_at(final(store)@, ctx.task)->0.assignee_tracks_status(),
{
    if store.task(&ctx.task).is_none() || store.member(&ctx.member).is_none() {
        return Err(CustomError::NotFound);
    }
    let ghost before = store@;
    let ghost task = task_at(before, ctx.task)->0;
    match store.task_mut(&ctx.task) {
        Some(task) => {
            task.resolve(approved);
        },
        None => {},
    }
    let ghost between = store@;
    proof {
        lemma_task_consistent(before, ctx.task, task.reviewed(approved));
    }
    if approved {
        match store.member_mut(&ctx.member) {
            Some(member) => {
                member.credit();
            },
            None => {},
        }
        proof {
            lemma_credit_consistent(between, ctx.member);
        }
    }
    Ok(())
}

} // verus!
