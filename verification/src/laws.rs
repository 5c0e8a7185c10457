//! What follows from the operations taken together.

use crate::accounts::{AddMember, AssignTask, CreateTask, InitializeDao, ReviewTask, SubmitTask};
use crate::error::CustomError;
use crate::instructions::{
    add_member_outcome, after_add_member, after_assign_task, after_create_task,
    after_initialize_dao, after_review_task, after_submit_task, assign_task_outcome,
    create_task_outcome, initialize_dao_outcome, review_task_outcome, submit_task_outcome,
};
use crate::ledger::{
    consistent, lemma_admission_consistent, lemma_credit_consistent, lemma_empty_consistent,
    lemma_founding_consistent, lemma_task_consistent,
};
use crate::state::{DaoView, MemberView, TaskView};
use crate::store::{dao_at, member_at, task_at, RecordView, StoreView};
use anchor_lang::prelude::Pubkey;
use vstd::prelude::*;

verus! {

/// One request to the board, with everything it is handed.
#[allow(inconsistent_fields)]
pub enum Request {
    InitializeDao { ctx: InitializeDao, name: Seq<char> },
    AddMember { ctx: AddMember, username: Seq<char> },
    CreateTask { ctx: CreateTask, title: Seq<char>, description: Seq<char> },
    AssignTask { ctx: AssignTask },
    SubmitTask { ctx: SubmitTask },
    ReviewTask { ctx: ReviewTask, approved: bool },
}

/// The store that a request leaves behind, granted or rejected.
pub open spec fn after_request(store: StoreView, request: Request) -> StoreView {
    match request {
        Request::InitializeDao { ctx, name } => after_initialize_dao(store, ctx, name),
        Request::AddMember { ctx, username } => after_add_member(store, ctx, username),
        Request::CreateTask { ctx, title, description } => after_create_task(
            store,
            ctx,
            title,
            description,
        ),
        Request::AssignTask { ctx } => after_assign_task(store, ctx),
        Request::SubmitTask { ctx } => after_submit_task(store, ctx),
        Request::ReviewTask { ctx, approved } => after_review_task(store, ctx, approved),
    }
}

/// Whether a request is an admission to the organisation at `dao` that is
/// granted on this store.
pub open spec fn admits_to(store: StoreView, request: Request, dao: Pubkey) -> bool {
    match request {
        Request::AddMember { ctx, username } => ctx.dao == dao && add_member_outcome(
            store,
            ctx,
            username,
        ) is Ok,
        _ => false,
    }
}

/// The store after a series of requests, each applied to what the one
/// before it left behind.
pub open spec fn after_requests(store: StoreView, requests: Seq<Request>) -> StoreView
    decreases requests.len(),
{
    if requests.len() == 0 {
        store
    } else {
        after_requests(after_request(store, requests.first()), requests.drop_first())
    }
}

/// How many requests of a series are admissions to the organisation at
/// `dao` that are granted when their turn comes.
pub open spec fn admissions_granted(store: StoreView, requests: Seq<Request>, dao: Pubkey) -> nat
    decreases requests.len(),
{
    if requests.len() == 0 {
        0
    } else {
        let granted: nat = if admits_to(store, requests.first(), dao) {
            1
        } else {
            0
        };
        granted + admissions_granted(
            after_request(store, requests.first()),
            requests.drop_first(),
            dao,
        )
    }
}

/// Over any series of requests, an organisation's count grows by one for
/// each admission that is granted to it, and by nothing else.
pub proof fn law_count_follows_admissions(store: StoreView, requests: Seq<Request>, dao: Pubkey)
    requires
        dao_at(store, dao) is Some,
    ensures
        dao_at(after_requests(store, requests), dao) is Some,
        dao_at(after_requests(store, requests), dao)->0.member_count == dao_at(
            store,
            dao,
        )->0.member_count + admissions_granted(store, requests, dao),
    decreases requests.len(),
{
    if requests.len() > 0 {
        let next = after_request(store, requests.first());
        assert(dao_at(next, dao) is Some);
        assert(dao_at(next, dao)->0.member_count == dao_at(store, dao)->0.member_count + (
        if admits_to(store, requests.first(), dao) {
            1nat
        } else {
            0nat
        }));
        law_count_follows_admissions(next, requests.drop_first(), dao);
    }
}

/// An organisation that was founded, whatever was asked of the board
/// afterwards, counts one member, its founder, and one more for each
/// admission that was granted to it.
pub proof fn law_member_count(
    store: StoreView,
    ctx: InitializeDao,
    name: Seq<char>,
    requests: Seq<Request>,
)
    requires
        initialize_dao_outcome(store, ctx, name) is Ok,
    ensures
        dao_at(after_requests(after_initialize_dao(store, ctx, name), requests), ctx.dao) is Some,
        dao_at(
            after_requests(after_initialize_dao(store, ctx, name), requests),
            ctx.dao,
        )->0.member_count == 1 + admissions_granted(
            after_initialize_dao(store, ctx, name),
            requests,
            ctx.dao,
        ),
{
    law_count_follows_admissions(after_initialize_dao(store, ctx, name), requests, ctx.dao);
}

/// Whatever is asked of a consistent store, granted or rejected, leaves a
/// consistent store: each organisation still counts its founder and its
/// memberships, and every record still refers to what is stored.
pub proof fn law_store_stays_consistent(store: StoreView, request: Request)
    requires
        consistent(store),
    ensures
        consistent(after_request(store, request)),
{
    match request {
        Request::InitializeDao { ctx, name } => {
            if initialize_dao_outcome(store, ctx, name) is Ok {
                lemma_founding_consistent(store, ctx.dao, DaoView::founded(ctx.authority, name));
            }
        },
        Request::AddMember { ctx, username } => {
            if add_member_outcome(store, ctx, username) is Ok {
                lemma_admission_consistent(
                    store,
                    ctx.dao,
                    ctx.member,
                    MemberView::joined(ctx.dao, ctx.user, username),
                );
            }
        },
        Request::CreateTask { ctx, title, description } => {
            if create_task_outcome(store, ctx, title, description) is Ok {
                lemma_task_consistent(
                    store,
                    ctx.task,
                    TaskView::created(ctx.dao, ctx.authority, title, description),
                );
            }
        },
        Request::AssignTask { ctx } => {
            if assign_task_outcome(store, ctx) is Ok {
                lemma_task_consistent(
                    store,
                    ctx.task,
                    task_at(store, ctx.task)->0.claimed_by(ctx.member),
                );
            }
        },
        Request::SubmitTask { ctx } => {
            if submit_task_outcome(store, ctx) is Ok {
                lemma_task_consistent(store, ctx.task, task_at(store, ctx.task)->0.submitted());
            }
        },
        Request::ReviewTask { ctx, approved } => {
            if review_task_outcome(store, ctx) is Ok {
                let reviewed = task_at(store, ctx.task)->0.reviewed(approved);
                let between = store.insert(ctx.task, RecordView::Task(reviewed));
                lemma_task_consistent(store, ctx.task, reviewed);
                if approved {
                    lemma_credit_consistent(between, ctx.member);
                } else {
                    assert(between.insert(ctx.member, between[ctx.member]) =~= between);
                }
            }
        },
    }
}

/// A consistent store stays consistent over any series of requests.
pub proof fn law_consistent_throughout(store: StoreView, requests: Seq<Request>)
    requires
        consistent(store),
    ensures
        consistent(after_requests(store, requests)),
    decreases requests.len(),
{
    if requests.len() > 0 {
        law_store_stays_consistent(store, requests.first());
        law_consistent_throughout(after_request(store, requests.first()), requests.drop_first());
    }
}

/// Whatever a board has been asked since it was empty, its store is
/// consistent.
pub proof fn law_every_history_is_consistent(requests: Seq<Request>)
    ensures
        consistent(after_requests(Map::<Pubkey, RecordView>::empty(), requests)),
{
    lemma_empty_consistent();
    law_consistent_throughout(Map::<Pubkey, RecordView>::empty(), requests);
}

/// In every task of the store, somebody holds the task exactly while it is
/// in hand.
pub open spec fn holders_track_stages(store: StoreView) -> bool {
    forall|key: Pubkey| (#[trigger] task_at(store, key)) is Some ==> task_at(
        store,
        key,
    )->0.assignee_tracks_status()
}

/// If somebody holds each task exactly while it is in hand, that is still
/// so after any request, granted or rejected.
pub proof fn law_holders_track_stages(store: StoreView, request: Request)
    requires
        holders_track_stages(store),
    ensures
        holders_track_stages(after_request(store, request)),
{
    let after = after_request(store, request);
    assert forall|key: Pubkey| (#[trigger] task_at(after, key)) is Some implies task_at(
        after,
        key,
    )->0.assignee_tracks_status() by {
        // A request writes at most one task; every other is as it was.
        if task_at(after, key) == task_at(store, key) {
            assert(task_at(store, key)->0.assignee_tracks_status());
        }
    }
}

/// And so it is after any series of requests.
pub proof fn law_holders_track_stages_throughout(store: StoreView, requests: Seq<Request>)
    requires
        holders_track_stages(store),
    ensures
        holders_track_stages(after_requests(store, requests)),
    decreases requests.len(),
{
    if requests.len() > 0 {
        let next = after_request(store, requests.first());
        law_holders_track_stages(store, requests.first());
        law_holders_track_stages_throughout(next, requests.drop_first());
    }
}

/// Whatever a board has been asked since it was empty, somebody holds each
/// of its tasks exactly while the task is in hand.
pub proof fn law_holders_always_track_stages(requests: Seq<Request>)
    ensures
        holders_track_stages(after_requests(Map::<Pubkey, RecordView>::empty(), requests)),
{
    law_holders_track_stages_throughout(Map::<Pubkey, RecordView>::empty(), requests);
}

/// A task that was approved is completed and held by nobody, so that
/// handing it in again is rejected, whoever asks, and changes nothing.
pub proof fn law_approved_task_stays_completed(
    store: StoreView,
    review: ReviewTask,
    handing_in: SubmitTask,
)
    requires
        review_task_outcome(store, review) is Ok,
        handing_in.task == review.task,
    ensures
        task_at(after_review_task(store, review, true), review.task) is Some,
        task_at(after_review_task(store, review, true), review.task)->0.status is Completed,
        task_at(after_review_task(store, review, true), review.task)->0.assignee is None,
        submit_task_outcome(after_review_task(store, review, true), handing_in) is Err,
        submit_task_outcome(after_review_task(store, review, true), handing_in)->Err_0
            == CustomError::NotAssigned,
        after_submit_task(after_review_task(store, review, true), handing_in)
            == after_review_task(store, review, true),
{
}

/// Whatever `before` holds is still there in `after`, of the same kind and
/// with what never changes left as it was: an organisation's authority and
/// name, a membership's organisation, identity and display name, a task's
/// organisation, creator and texts. The two counters have not gone down.
pub open spec fn carries_on(before: StoreView, after: StoreView) -> bool {
    &&& forall|key: Pubkey| #![trigger dao_at(after, key)] dao_at(before, key) is Some ==> {
        &&& dao_at(after, key) is Some
        &&& dao_at(after, key)->0.authority == dao_at(before, key)->0.authority
        &&& dao_at(after, key)->0.name == dao_at(before, key)->0.name
        &&& dao_at(after, key)->0.member_count >= dao_at(before, key)->0.member_count
    }
    &&& forall|key: Pubkey| #![trigger member_at(after, key)] member_at(before, key) is Some ==> {
        &&& member_at(after, key) is Some
        &&& member_at(after, key)->0.dao == member_at(before, key)->0.dao
        &&& member_at(after, key)->0.authority == member_at(before, key)->0.authority
        &&& member_at(after, key)->0.username == member_at(before, key)->0.username
        &&& member_at(after, key)->0.tasks_completed >= member_at(
            before,
            key,
        )->0.tasks_completed
    }
    &&& forall|key: Pubkey| #![trigger task_at(after, key)] task_at(before, key) is Some ==> {
        &&& task_at(after, key) is Some
        &&& task_at(after, key)->0.dao == task_at(before, key)->0.dao
        &&& task_at(after, key)->0.creator == task_at(before, key)->0.creator
        &&& task_at(after, key)->0.title == task_at(before, key)->0.title
        &&& task_at(after, key)->0.description == task_at(before, key)->0.description
    }
}

/// No request, granted or rejected, removes a record, turns it into one of
/// another kind, rewrites what is fixed at its creation, or lowers a
/// counter.
pub proof fn law_records_carry_on(store: StoreView, request: Request)
    ensures
        carries_on(store, after_request(store, request)),
{
}

/// Nor does any series of requests.
pub proof fn law_records_carry_on_throughout(store: StoreView, requests: Seq<Request>)
    ensures
        carries_on(store, after_requests(store, requests)),
    decreases requests.len(),
{
    if requests.len() > 0 {
        let next = after_request(store, requests.first());
        law_records_carry_on(store, requests.first());
        law_records_carry_on_throughout(next, requests.drop_first());
    }
}

/// An organisation is changed by nothing but an admission, and a membership
/// by nothing but an approving review.
pub proof fn law_counters_change_only_where_due(store: StoreView, request: Request, key: Pubkey)
    ensures
        dao_at(store, key) is Some && !(request is AddMember) ==> dao_at(
            after_request(store, request),
            key,
        ) == dao_at(store, key),
        member_at(store, key) is Some && !(request matches Request::ReviewTask { approved, .. }
            && approved) ==> member_at(after_request(store, request), key) == member_at(
            store,
            key,
        ),
{
}

/// Of two claims on the same open task, whichever is applied first is
/// granted, and the other is then rejected because the task is not
/// available and changes nothing.
pub proof fn law_one_claim_wins(store: StoreView, one: AssignTask, other: AssignTask)
    requires
        one.task == other.task,
        task_at(store, one.task) matches Some(task) && task.status is Open,
        member_at(store, one.member) is Some,
        member_at(store, other.member) is Some,
    ensures
        assign_task_outcome(store, one) is Ok,
        assign_task_outcome(after_assign_task(store, one), other) is Err,
        assign_task_outcome(after_assign_task(store, one), other)->Err_0
            == CustomError::TaskNotAvailable,
        after_assign_task(after_assign_task(store, one), other) == after_assign_task(store, one),
        assign_task_outcome(store, other) is Ok,
        assign_task_outcome(after_assign_task(store, other), one) is Err,
        assign_task_outcome(after_assign_task(store, other), one)->Err_0
            == CustomError::TaskNotAvailable,
        after_assign_task(after_assign_task(store, other), one) == after_assign_task(store, other),
{
}

} // verus!
