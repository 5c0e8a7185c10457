//! What holds of the store as a whole, whatever has been done to it.

use crate::state::{DaoView, MemberView, TaskView};
use crate::store::{dao_at, member_at, task_at, EntityStore, RecordView, StoreView};
use anchor_lang::prelude::Pubkey;
use vstd::prelude::*;

verus! {

/// The addresses of the memberships that belong to the organisation at `dao`.
pub open spec fn members_of(store: StoreView, dao: Pubkey) -> Set<Pubkey> {
    Set::new(|key: Pubkey| member_at(store, key) matches Some(member) && member.dao == dao)
}

/// The organisation at `key`, if there is one, is well formed and counts
/// its founder and each membership that refers to it.
pub open spec fn dao_agrees(store: StoreView, key: Pubkey) -> bool {
    dao_at(store, key) matches Some(dao) ==> {
        &&& dao.well_formed()
        &&& dao.member_count == 1 + members_of(store, key).len()
    }
}

/// The membership at `key`, if there is one, is well formed and refers to
/// an organisation that is stored.
pub open spec fn member_agrees(store: StoreView, key: Pubkey) -> bool {
    member_at(store, key) matches Some(member) ==> {
        &&& member.well_formed()
        &&& dao_at(store, member.dao) is Some
    }
}

/// The task at `key`, if there is one, is well formed, refers to an
/// organisation that is stored and, if it is held, is held by a membership
/// that is stored.
pub open spec fn task_agrees(store: StoreView, key: Pubkey) -> bool {
    task_at(store, key) matches Some(task) ==> {
        &&& task.well_formed()
        &&& dao_at(store, task.dao) is Some
        &&& task.assignee matches Some(holder) ==> member_at(store, holder) is Some
    }
}

/// The records agree with each other, each in the way of its kind.
pub open spec fn consistent(store: StoreView) -> bool {
    &&& store.dom().finite()
    &&& forall|key: Pubkey| #![trigger dao_at(store, key)] dao_agrees(store, key)
    &&& forall|key: Pubkey| #![trigger member_at(store, key)] member_agrees(store, key)
    &&& forall|key: Pubkey| #![trigger task_at(store, key)] task_agrees(store, key)
}

/// The store is sound inside and its records agree with each other.
pub open spec fn well_formed(store: &EntityStore) -> bool {
    store.inv() && consistent(store@)
}

/// An empty store is consistent.
pub proof fn lemma_empty_consistent()
    ensures
        consistent(Map::<Pubkey, RecordView>::empty()),
{
}

/// The memberships of a stored organisation are finitely many, and fewer
/// than the records in the store: the organisation itself is one of those.
pub proof fn lemma_members_bounded(store: StoreView, dao: Pubkey)
    requires
        store.dom().finite(),
        dao_at(store, dao) is Some,
    ensures
        members_of(store, dao).finite(),
        members_of(store, dao).len() + 1 <= store.dom().len(),
{
    let others = store.dom().remove(dao);
    vstd::set_lib::lemma_len_subset(members_of(store, dao), others);
}

/// Founding an organisation at a free address keeps the store consistent.
pub proof fn lemma_founding_consistent(store: StoreView, key: Pubkey, dao: DaoView)
    requires
        consistent(store),
        !store.dom().contains(key),
        dao.well_formed(),
        dao.member_count == 1,
    ensures
        consistent(store.insert(key, RecordView::Dao(dao))),
{
    let after = store.insert(key, RecordView::Dao(dao));
    assert forall|k: Pubkey| members_of(after, k) =~= members_of(store, k) by {}
    // No membership refers to an address that held nothing.
    assert(members_of(store, key) =~= Set::<Pubkey>::empty());
    assert forall|k: Pubkey| #![trigger dao_at(after, k)] dao_agrees(after, k) by {
        if k != key {
            assert(dao_at(after, k) == dao_at(store, k));
        }
    }
    assert forall|k: Pubkey| #![trigger member_at(after, k)] member_agrees(after, k) by {
        assert(member_at(after, k) == member_at(store, k));
    }
    assert forall|k: Pubkey| #![trigger task_at(after, k)] task_agrees(after, k) by {
        assert(task_at(after, k) == task_at(store, k));
    }
}

/// Storing a new membership at a free address, and counting it in its
/// organisation, keeps the store consistent.
pub proof fn lemma_admission_consistent(
    store: StoreView,
    dao_key: Pubkey,
    member_key: Pubkey,
    member: MemberView,
)
    requires
        consistent(store),
        dao_at(store, dao_key) is Some,
        !store.dom().contains(member_key),
        member.well_formed(),
        member.dao == dao_key,
    ensures
        consistent(
            store.insert(member_key, RecordView::Member(member)).insert(
                dao_key,
                RecordView::Dao(dao_at(store, dao_key)->0.with_new_member()),
            ),
        ),
{
    let dao = dao_at(store, dao_key)->0;
    let after = store.insert(member_key, RecordView::Member(member)).insert(
        dao_key,
        RecordView::Dao(dao.with_new_member()),
    );
    assert forall|m: Pubkey| m != member_key implies member_at(after, m) == member_at(store, m) by {}
    assert forall|k: Pubkey| k != dao_key implies members_of(after, k) =~= members_of(store, k) by {}
    // The organisation joined has the new membership and those it had.
    assert(members_of(after, dao_key) =~= members_of(store, dao_key).insert(member_key));
    lemma_members_bounded(store, dao_key);
    assert forall|k: Pubkey| #![trigger dao_at(after, k)] dao_agrees(after, k) by {
        if k != dao_key {
            assert(dao_at(after, k) == dao_at(store, k));
        }
    }
    assert forall|k: Pubkey| #![trigger member_at(after, k)] member_agrees(after, k) by {}
    assert forall|k: Pubkey| #![trigger task_at(after, k)] task_agrees(after, k) by {
        assert(task_at(after, k) == task_at(store, k));
    }
}

/// Writing a task, at a free address or over a task, keeps the store
/// consistent as long as the task refers to what is stored.
pub proof fn lemma_task_consistent(store: StoreView, key: Pubkey, task: TaskView)
    requires
        consistent(store),
        !store.dom().contains(key) || task_at(store, key) is Some,
        task.well_formed(),
        dao_at(store, task.dao) is Some,
        task.assignee matches Some(holder) ==> member_at(store, holder) is Some,
    ensures
        consistent(store.insert(key, RecordView::Task(task))),
{
    let after = store.insert(key, RecordView::Task(task));
    assert forall|k: Pubkey| member_at(after, k) == member_at(store, k) by {}
    assert forall|k: Pubkey| dao_at(after, k) == dao_at(store, k) by {}
    assert forall|k: Pubkey| members_of(after, k) =~= members_of(store, k) by {}
    assert forall|k: Pubkey| #![trigger task_at(after, k)] task_agrees(after, k) by {
        if k != key {
            assert(task_at(after, k) == task_at(store, k));
        }
    }
}

/// Crediting a stored membership keeps the store consistent.
pub proof fn lemma_credit_consistent(store: StoreView, key: Pubkey)
    requires
        consistent(store),
        member_at(store, key) is Some,
    ensures
        consistent(store.insert(key, RecordView::Member(member_at(store, key)->0.credited()))),
{
    let after = store.insert(key, RecordView::Member(member_at(store, key)->0.credited()));
    assert forall|k: Pubkey| dao_at(after, k) == dao_at(store, k) by {}
    assert forall|k: Pubkey| task_at(after, k) == task_at(store, k) by {}
    assert forall|k: Pubkey| members_of(after, k) =~= members_of(store, k) by {}
    assert forall|k: Pubkey| #![trigger member_at(after, k)] member_agrees(after, k) by {
        if k != key {
            assert(member_at(after, k) == member_at(store, k));
        }
    }
}

} // verus!
