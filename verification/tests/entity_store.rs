use nova_dao::{
    CustomError, DaoState, EntityStore, MemberState, Pubkey, Record, TaskState, TaskStatus,
};

fn slot(n: u8) -> Pubkey {
    Pubkey::new_from_array([n; 32])
}

fn some_dao(name: &str) -> Record {
    Record::Dao(DaoState { authority: slot(1), name: name.to_string(), member_count: 1 })
}

fn some_member(name: &str) -> Record {
    Record::Member(MemberState {
        dao: slot(10),
        authority: slot(2),
        username: name.to_string(),
        tasks_completed: 0,
    })
}

fn some_task(title: &str) -> Record {
    Record::Task(TaskState {
        dao: slot(10),
        creator: slot(1),
        title: title.to_string(),
        description: String::new(),
        status: TaskStatus::Open,
        assignee: None,
    })
}

#[test]
fn new_store_holds_nothing() {
    let store = EntityStore::new();
    assert_eq!(store.len(), 0);
    assert!(!store.contains(&slot(1)));
    assert!(store.get(&slot(1)).is_none());
}

#[test]
fn create_then_read() {
    let mut store = EntityStore::new();
    assert_eq!(store.create(slot(10), some_dao("Acme")), Ok(()));
    assert_eq!(store.create(slot(20), some_member("alice")), Ok(()));
    assert_eq!(store.create(slot(30), some_task("T1")), Ok(()));
    assert_eq!(store.len(), 3);
    assert!(store.contains(&slot(20)));
    assert!(!store.contains(&slot(21)));
    assert_eq!(store.get(&slot(10)), Some(&some_dao("Acme")));
    assert_eq!(store.get(&slot(20)), Some(&some_member("alice")));
    assert_eq!(store.get(&slot(30)), Some(&some_task("T1")));
    assert_eq!(store.get(&slot(40)), None);
}

#[test]
fn create_never_writes_over_a_record() {
    let mut store = EntityStore::new();
    store.create(slot(10), some_dao("Acme")).unwrap();
    assert_eq!(store.create(slot(10), some_dao("Other")), Err(CustomError::SlotOccupied));
    assert_eq!(store.create(slot(10), some_task("T1")), Err(CustomError::SlotOccupied));
    assert_eq!(store.get(&slot(10)), Some(&some_dao("Acme")));
    assert_eq!(store.len(), 1);
}

#[test]
fn typed_reads_answer_only_for_their_kind() {
    let mut store = EntityStore::new();
    store.create(slot(10), some_dao("Acme")).unwrap();
    store.create(slot(20), some_member("alice")).unwrap();
    store.create(slot(30), some_task("T1")).unwrap();
    assert_eq!(store.dao(&slot(10)).unwrap().name, "Acme");
    assert!(store.dao(&slot(20)).is_none());
    assert!(store.dao(&slot(30)).is_none());
    assert!(store.dao(&slot(40)).is_none());
    assert_eq!(store.member(&slot(20)).unwrap().username, "alice");
    assert!(store.member(&slot(10)).is_none());
    assert!(store.member(&slot(30)).is_none());
    assert_eq!(store.task(&slot(30)).unwrap().title, "T1");
    assert!(store.task(&slot(10)).is_none());
    assert!(store.task(&slot(20)).is_none());
}

#[test]
fn change_in_place_touches_one_address() {
    let mut store = EntityStore::new();
    store.create(slot(10), some_dao("Acme")).unwrap();
    store.create(slot(20), some_member("alice")).unwrap();
    store.create(slot(21), some_member("bob")).unwrap();
    store.create(slot(30), some_task("T1")).unwrap();

    store.member_mut(&slot(20)).unwrap().tasks_completed = 7;
    store.dao_mut(&slot(10)).unwrap().member_count = 3;
    store.task_mut(&slot(30)).unwrap().status = TaskStatus::Completed;

    assert_eq!(store.member(&slot(20)).unwrap().tasks_completed, 7);
    assert_eq!(store.get(&slot(21)), Some(&some_member("bob")));
    assert_eq!(store.dao(&slot(10)).unwrap().member_count, 3);
    assert_eq!(store.task(&slot(30)).unwrap().status, TaskStatus::Completed);
    assert_eq!(store.len(), 4);
}

#[test]
fn typed_change_is_refused_for_another_kind() {
    let mut store = EntityStore::new();
    store.create(slot(10), some_dao("Acme")).unwrap();
    store.create(slot(30), some_task("T1")).unwrap();
    assert!(store.task_mut(&slot(10)).is_none());
    assert!(store.member_mut(&slot(10)).is_none());
    assert!(store.dao_mut(&slot(30)).is_none());
    assert!(store.dao_mut(&slot(99)).is_none());
    assert!(store.get_mut(&slot(99)).is_none());
    assert_eq!(store.get(&slot(10)), Some(&some_dao("Acme")));
    assert_eq!(store.get(&slot(30)), Some(&some_task("T1")));
}

#[test]
fn record_can_be_replaced_in_place() {
    let mut store = EntityStore::new();
    store.create(slot(10), some_dao("Acme")).unwrap();
    store.create(slot(30), some_task("T1")).unwrap();
    *store.get_mut(&slot(30)).unwrap() = some_task("T2");
    assert_eq!(store.get(&slot(30)), Some(&some_task("T2")));
    assert_eq!(store.get(&slot(10)), Some(&some_dao("Acme")));
    assert_eq!(store.len(), 2);
}

#[test]
fn addresses_differ_when_one_byte_differs() {
    let mut store = EntityStore::new();
    let mut a = [0u8; 32];
    let mut b = [0u8; 32];
    a[0] = 1;
    b[31] = 1;
    store.create(Pubkey::new_from_array(a), some_task("first")).unwrap();
    assert_eq!(store.create(Pubkey::new_from_array(b), some_task("last")), Ok(()));
    assert_eq!(store.task(&Pubkey::new_from_array(a)).unwrap().title, "first");
    assert_eq!(store.task(&Pubkey::new_from_array(b)).unwrap().title, "last");
    assert!(!store.contains(&Pubkey::new_from_array([0u8; 32])));
}
