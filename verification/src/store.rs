//! The entity store: records kept under their addresses.
//!
//! A record is created once, at an address that holds nothing yet; after
//! that it can be read and changed in place, and it is never removed.

use crate::error::CustomError;
use crate::key::same_key;
use crate::ledger::{consistent, lemma_empty_consistent};
use crate::state::{DaoState, DaoView, MemberState, MemberView, TaskState, TaskView};
use anchor_lang::prelude::Pubkey;
use vstd::prelude::*;

verus! {

/// What an address can hold.
#[derive(Debug, PartialEq, Eq)]
pub enum Record {
    Dao(DaoState),
    Member(MemberState),
    Task(TaskState),
}

impl Clone for Record {
    fn clone(&self) -> (copy: Self)
        ensures
            copy == *self,
    {
        match self {
            Record::Dao(dao) => Record::Dao(dao.clone()),
            Record::Member(member) => Record::Member(member.clone()),
            Record::Task(task) => Record::Task(task.clone()),
        }
    }
}

/// What a record says.
pub enum RecordView {
    Dao(DaoView),
    Member(MemberView),
    Task(TaskView),
}

impl View for Record {
    type V = RecordView;

    open spec fn view(&self) -> RecordView {
        match self {
            Record::Dao(dao) => RecordView::Dao(dao@),
            Record::Member(member) => RecordView::Member(member@),
            Record::Task(task) => RecordView::Task(task@),
        }
    }
}

/// The store as a whole: which addresses are in use, and what each holds.
pub type StoreView = Map<Pubkey, RecordView>;

/// The organisation stored at `key`, if that is what the address holds.
pub open spec fn dao_at(store: StoreView, key: Pubkey) -> Option<DaoView> {
    if store.dom().contains(key) {
        match store[key] {
            RecordView::Dao(dao) => Some(dao),
            _ => None,
        }
    } else {
        None
    }
}

/// The membership stored at `key`, if that is what the address holds.
pub open spec fn member_at(store: StoreView, key: Pubkey) -> Option<MemberView> {
    if store.dom().contains(key) {
        match store[key] {
            RecordView::Member(member) => Some(member),
            _ => None,
        }
    } else {
        None
    }
}

/// The task stored at `key`, if that is what the address holds.
pub open spec fn task_at(store: StoreView, key: Pubkey) -> Option<TaskView> {
    if store.dom().contains(key) {
        match store[key] {
            RecordView::Task(task) => Some(task),
            _ => None,
        }
    } else {
        None
    }
}

#[derive(Debug)]
struct Slot {
    key: Pubkey,
    record: Record,
}

/// Records under their addresses, in the order in which they were created.
#[derive(Debug)]
pub struct EntityStore {
    slots: Vec<Slot>,
}

impl EntityStore {
    spec fn keys(&self) -> Seq<Pubkey> {
        self.slots@.map_values(|slot: Slot| slot.key)
    }

    /// No address is in use twice.
    pub closed spec fn inv(&self) -> bool {
        self.keys().no_duplicates()
    }

    /// The addresses in use and what each holds.
    pub closed spec fn view(&self) -> StoreView {
        Map::new(
            |key: Pubkey| self.keys().contains(key),
            |key: Pubkey| self.slots@[self.keys().index_of(key)].record@,
        )
    }

    proof fn lemma_slot(&self, i: int)
        requires
            self.inv(),
            0 <= i < self.slots@.len(),
        ensures
            self@.dom().contains(self.slots@[i].key),
            self@[self.slots@[i].key] == self.slots@[i].record@,
    {
        assert(self.keys()[i] == self.slots@[i].key);
    }

    proof fn lemma_absent(&self, key: Pubkey)
        requires
            forall|i: int| 0 <= i < self.slots@.len() ==> (#[trigger] self.slots@[i]).key != key,
        ensures
            !self@.dom().contains(key),
    {
        if self.keys().contains(key) {
            let i = self.keys().index_of(key);
            assert(self.slots@[i].key == key);
        }
    }

    proof fn lemma_replaced(before: EntityStore, after: EntityStore, i: int, record: Record)
        requires
            before.inv(),
            0 <= i < before.slots@.len(),
            after.slots@ == before.slots@.update(i, Slot { key: before.slots@[i].key, record }),
        ensures
            after.inv(),
            after@ == before@.insert(before.slots@[i].key, record@),
    {
        let key = before.slots@[i].key;
        assert(after.keys() =~= before.keys());
        before.lemma_slot(i);
        assert forall|k: Pubkey| after@.dom().contains(k) implies #[trigger] after@[k]
            == before@.insert(key, record@)[k] by {
            let j = after.keys().index_of(k);
            assert(before.keys()[i] == key);
            before.lemma_slot(j);
        }
        assert(after@ =~= before@.insert(key, record@));
    }

    proof fn lemma_appended(before: EntityStore, after: EntityStore, key: Pubkey, record: Record)
        requires
            before.inv(),
            !before@.dom().contains(key),
            after.slots@ == before.slots@.push(Slot { key, record }),
        ensures
            after.inv(),
            after@ == before@.insert(key, record@),
    {
        let n = before.slots@.len() as int;
        assert(after.keys() =~= before.keys().push(key));
        assert(after.keys()[n] == key);
        assert forall|k: Pubkey| after@.dom().contains(k) <==> before@.insert(
            key,
            record@,
        ).dom().contains(k) by {
            if before.keys().contains(k) {
                let j = before.keys().index_of(k);
                assert(after.keys()[j] == k);
            }
        }
        assert forall|k: Pubkey| after@.dom().contains(k) implies #[trigger] after@[k]
            == before@.insert(key, record@)[k] by {
            let j = after.keys().index_of(k);
            if j < n {
                before.lemma_slot(j);
            }
        }
        assert(after@ =~= before@.insert(key, record@));
    }

    /// The addresses in use are finitely many, one for each record held.
    pub proof fn lemma_size(&self)
        requires
            self.inv(),
        ensures
            self@.dom().finite(),
            self@.dom().len() <= usize::MAX,
    {
        broadcast use vstd::seq_lib::seq_to_set_is_finite;

        assert(self@.dom() =~= self.keys().to_set());
        self.keys().unique_seq_to_set();
        assert(self.slots.len() == self.slots@.len());
    }

    /// A store that holds nothing.
    pub fn new() -> (store: EntityStore)
        ensures
            store.inv(),
            store@ == Map::<Pubkey, RecordView>::empty(),
            consistent(store@),
    {
        let store = EntityStore { slots: Vec::new() };
        proof {
            lemma_empty_consistent();
        }
        store
    }

    /// The number of records held.
    pub fn len(&self) -> (n: usize)
        requires
            self.inv(),
        ensures
            n == self@.dom().len(),
    {
        proof {
            broadcast use vstd::seq_lib::seq_to_set_is_finite;

            self.keys().unique_seq_to_set();
        }
        self.slots.len()
    }

    fn find(&self, key: &Pubkey) -> (found: Option<usize>)
        ensures
            match found {
                Some(i) => i < self.slots@.len() && self.slots@[i as int].key == *key,
                None => !self@.dom().contains(*key),
            },
    {
        let mut i: usize = 0;
        while i < self.slots.len()
            invariant
                i <= self.slots@.len(),
                forall|j: int| 0 <= j < i ==> (#[trigger] self.slots@[j]).key != *key,
            decreases self.slots@.len() - i,
        {
            if same_key(&self.slots[i].key, key) {
                return Some(i);
            }
            i = i + 1;
        }
        proof {
            self.lemma_absent(*key);
        }
        None
    }

    /// Whether `key` is in use.
    pub fn contains(&self, key: &Pubkey) -> (occupied: bool)
        requires
            self.inv(),
        ensures
            occupied == self@.dom().contains(*key),
    {
        match self.find(key) {
            Some(i) => {
                proof {
                    self.lemma_slot(i as int);
                }
                true
            },
            None => false,
        }
    }

    /// The record stored at `key`, if the address is in use.
    pub fn get(&self, key: &Pubkey) -> (found: Option<&Record>)
        requires
            self.inv(),
        ensures
            match found {
                Some(record) => self@.dom().contains(*key) && self@[*key] == record@,
                None => !self@.dom().contains(*key),
            },
    {
        match self.find(key) {
            Some(i) => {
                proof {
                    self.lemma_slot(i as int);
                }
                Some(&self.slots[i].record)
            },
            None => None,
        }
    }

    /// The organisation stored at `key`, if that is what the address holds.
    pub fn dao(&self, key: &Pubkey) -> (found: Option<&DaoState>)
        requires
            self.inv(),
        ensures
            match found {
                Some(dao) => dao_at(self@, *key) == Some(dao@),
                None => dao_at(self@, *key) is None,
            },
    {
        match self.get(key) {
            Some(Record::Dao(dao)) => Some(dao),
            _ => None,
        }
    }

    /// The membership stored at `key`, if that is what the address holds.
    pub fn member(&self, key: &Pubkey) -> (found: Option<&MemberState>)
        requires
            self.inv(),
        ensures
            match found {
                Some(member) => member_at(self@, *key) == Some(member@),
                None => member_at(self@, *key) is None,
            },
    {
        match self.get(key) {
            Some(Record::Member(member)) => Some(member),
            _ => None,
        }
    }

    /// The task stored at `key`, if that is what the address holds.
    pub fn task(&self, key: &Pubkey) -> (found: Option<&TaskState>)
        requires
            self.inv(),
        ensures
            match found {
                Some(task) => task_at(self@, *key) == Some(task@),
                None => task_at(self@, *key) is None,
            },
    {
        match self.get(key) {
            Some(Record::Task(task)) => Some(task),
            _ => None,
        }
    }

    /// Stores `record` at `key`. An address that is already in use is never
    /// written over: the store is then left exactly as it was.
    pub fn create(&mut self, key: Pubkey, record: Record) -> (r: Result<(), CustomError>)
        requires
            old(self).inv(),
        ensures
            final(self).inv(),
            match r {
                Ok(()) => !old(self)@.dom().contains(key) && final(self)@ == old(self)@.insert(
                    key,
                    record@,
                ),
                Err(e) => e == CustomError::SlotOccupied && old(self)@.dom().contains(key)
                    && final(self)@ == old(self)@,
            },
    {
        if self.contains(&key) {
            return Err(CustomError::SlotOccupied);
        }
        self.slots.push(Slot { key, record });
        proof {
            Self::lemma_appended(*old(self), *self, key, record);
        }
        Ok(())
    }

    /// The record stored at `key`, to be changed in place. Whatever the
    /// caller leaves there is what the address holds afterwards; no other
    /// address is touched.
    pub fn get_mut(&mut self, key: &Pubkey) -> (found: Option<&mut Record>)
        requires
            old(self).inv(),
        ensures
            final(self).inv(),
            match found {
                Some(record) => old(self)@.dom().contains(*key) && old(self)@[*key] == record@
                    && final(self)@ == old(self)@.insert(*key, final(record)@),
                None => !old(self)@.dom().contains(*key) && final(self)@ == old(self)@,
            },
    {
        let ghost after = *final(self);
        match self.find(key) {
            Some(i) => {
                proof {
                    self.lemma_slot(i as int);
                }
                let slot = &mut self.slots[i];
                let record = &mut slot.record;
                proof {
                    Self::lemma_replaced(*old(self), after, i as int, *final(record));
                }
                Some(record)
            },
            None => None,
        }
    }

    /// The organisation stored at `key`, to be changed in place.
    pub fn dao_mut(&mut self, key: &Pubkey) -> (found: Option<&mut DaoState>)
        requires
            old(self).inv(),
        ensures
            final(self).inv(),
            match found {
                Some(dao) => dao_at(old(self)@, *key) == Some(dao@) && final(self)@
                    == old(self)@.insert(*key, RecordView::Dao(final(dao)@)),
                None => dao_at(old(self)@, *key) is None && final(self)@ == old(self)@,
            },
    {
        match self.get_mut(key) {
            Some(Record::Dao(dao)) => Some(dao),
            _ => None,
        }
    }

    /// The membership stored at `key`, to be changed in place.
    pub fn member_mut(&mut self, key: &Pubkey) -> (found: Option<&mut MemberState>)
        requires
            old(self).inv(),
        ensures
            final(self).inv(),
            match found {
                Some(member) => member_at(old(self)@, *key) == Some(member@) && final(self)@
                    == old(self)@.insert(*key, RecordView::Member(final(member)@)),
                None => member_at(old(self)@, *key) is None && final(self)@ == old(self)@,
            },
    {
        match self.get_mut(key) {
            Some(Record::Member(member)) => Some(member),
            _ => None,
        }
    }

    /// The task stored at `key`, to be changed in place.
    pub fn task_mut(&mut self, key: &Pubkey) -> (found: Option<&mut TaskState>)
        requires
            old(self).inv(),
        ensures
            final(self).inv(),
            match found {
                Some(task) => task_at(old(self)@, *key) == Some(task@) && final(self)@
                    == old(self)@.insert(*key, RecordView::Task(final(task)@)),
                None => task_at(old(self)@, *key) is None && final(self)@ == old(self)@,
            },
    {
        match self.get_mut(key) {
            Some(Record::Task(task)) => Some(task),
            _ => None,
        }
    }
}

} // verus!
