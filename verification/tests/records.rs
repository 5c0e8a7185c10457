use nova_dao::state::{text_bytes, MAX_NAME_BYTES, MAX_TASK_TEXT_BYTES, MAX_USERNAME_BYTES};
use nova_dao::{
    authorize, guard::is_assignee, Action, CustomError, DaoState, MemberState, Pubkey, TaskState,
    TaskStatus,
};

fn address(n: u8) -> Pubkey {
    Pubkey::new_from_array([n; 32])
}

fn task_in(status: TaskStatus, assignee: Option<Pubkey>) -> TaskState {
    TaskState {
        dao: address(1),
        creator: address(2),
        title: "T1".to_string(),
        description: "desc".to_string(),
        status,
        assignee,
    }
}

fn member_with(tasks_completed: u64) -> MemberState {
    MemberState {
        dao: address(1),
        authority: address(3),
        username: "alice".to_string(),
        tasks_completed,
    }
}

#[test]
fn limits_are_those_of_the_stored_records() {
    assert_eq!(MAX_NAME_BYTES, 200);
    assert_eq!(MAX_USERNAME_BYTES, 100);
    assert_eq!(MAX_TASK_TEXT_BYTES, 600);
    assert_eq!(DaoState::LEN, 248);
    assert_eq!(MemberState::LEN, 180);
    assert_eq!(TaskState::LEN, 706);
}

#[test]
fn text_is_measured_in_utf8_bytes() {
    assert_eq!(text_bytes(&String::new()), 0);
    assert_eq!(text_bytes(&"Acme".to_string()), 4);
    assert_eq!(text_bytes(&"é".to_string()), 2);
    assert_eq!(text_bytes(&"€".to_string()), 3);
    assert_eq!(text_bytes(&"𝄞".to_string()), 4);
    assert_eq!(text_bytes(&"aé€𝄞".to_string()), 10);
}

#[test]
fn new_dao_counts_its_founder() {
    let dao = DaoState::new(address(7), "Acme".to_string()).unwrap();
    assert_eq!(dao.authority, address(7));
    assert_eq!(dao.name, "Acme");
    assert_eq!(dao.member_count, 1);
}

#[test]
fn new_dao_rejects_a_name_without_room() {
    assert!(DaoState::new(address(7), "x".repeat(200)).is_ok());
    assert_eq!(DaoState::new(address(7), "x".repeat(201)), Err(CustomError::FieldTooLong));
    assert_eq!(DaoState::new(address(7), "€".repeat(67)), Err(CustomError::FieldTooLong));
    assert!(DaoState::new(address(7), "€".repeat(66)).is_ok());
    assert!(DaoState::new(address(7), String::new()).is_ok());
}

#[test]
fn count_member_adds_one() {
    let mut dao = DaoState::new(address(7), "Acme".to_string()).unwrap();
    dao.count_member();
    dao.count_member();
    assert_eq!(dao.member_count, 3);
    assert_eq!(dao.authority, address(7));
    assert_eq!(dao.name, "Acme");
}

#[test]
fn enroll_hands_back_the_membership_and_counts_it() {
    let mut dao = DaoState::new(address(7), "Acme".to_string()).unwrap();
    let member = dao.enroll(address(10), address(20), "alice".to_string()).unwrap();
    assert_eq!(
        member,
        MemberState {
            dao: address(10),
            authority: address(20),
            username: "alice".to_string(),
            tasks_completed: 0
        }
    );
    assert_eq!(dao.member_count, 2);
}

#[test]
fn enroll_with_a_long_username_leaves_the_count() {
    let mut dao = DaoState::new(address(7), "Acme".to_string()).unwrap();
    let before = dao.clone();
    assert_eq!(
        dao.enroll(address(10), address(20), "u".repeat(101)),
        Err(CustomError::FieldTooLong)
    );
    assert_eq!(dao, before);
    assert!(dao.enroll(address(10), address(20), "u".repeat(100)).is_ok());
    assert_eq!(dao.member_count, 2);
}

#[test]
fn new_member_has_completed_nothing() {
    let member = MemberState::new(address(1), address(3), "alice".to_string()).unwrap();
    assert_eq!(member, member_with(0));
    assert_eq!(
        MemberState::new(address(1), address(3), "u".repeat(101)),
        Err(CustomError::FieldTooLong)
    );
}

#[test]
fn credit_adds_one() {
    let mut member = member_with(41);
    member.credit();
    assert_eq!(member, member_with(42));
}

#[test]
fn new_task_is_open() {
    let task =
        TaskState::new(address(1), address(2), "T1".to_string(), "desc".to_string()).unwrap();
    assert_eq!(task, task_in(TaskStatus::Open, None));
}

#[test]
fn new_task_rejects_texts_without_room() {
    assert!(TaskState::new(address(1), address(2), "t".repeat(300), "d".repeat(300)).is_ok());
    assert_eq!(
        TaskState::new(address(1), address(2), "t".repeat(300), "d".repeat(301)),
        Err(CustomError::FieldTooLong)
    );
    assert_eq!(
        TaskState::new(address(1), address(2), "t".repeat(700), String::new()),
        Err(CustomError::FieldTooLong)
    );
    assert_eq!(
        TaskState::new(address(1), address(2), String::new(), "d".repeat(601)),
        Err(CustomError::FieldTooLong)
    );
    assert!(TaskState::new(address(1), address(2), String::new(), "d".repeat(600)).is_ok());
}

#[test]
fn assign_takes_an_open_task() {
    let mut task = task_in(TaskStatus::Open, None);
    assert_eq!(task.assign(address(5)), Ok(()));
    assert_eq!(task, task_in(TaskStatus::InProgress, Some(address(5))));
}

#[test]
fn assign_leaves_any_other_task() {
    for status in [TaskStatus::InProgress, TaskStatus::PendingReview, TaskStatus::Completed] {
        for assignee in [None, Some(address(5)), Some(address(6))] {
            let mut task = task_in(status, assignee);
            assert_eq!(task.assign(address(6)), Err(CustomError::TaskNotAvailable));
            assert_eq!(task, task_in(status, assignee));
        }
    }
}

#[test]
fn submit_by_the_holder_moves_to_review() {
    let mut task = task_in(TaskStatus::InProgress, Some(address(5)));
    assert_eq!(task.submit(&address(9), &address(5)), Ok(()));
    assert_eq!(task, task_in(TaskStatus::PendingReview, Some(address(5))));
}

#[test]
fn submit_by_anyone_else_leaves_the_task() {
    let mut task = task_in(TaskStatus::InProgress, Some(address(5)));
    assert_eq!(task.submit(&address(5), &address(6)), Err(CustomError::NotAssigned));
    assert_eq!(task, task_in(TaskStatus::InProgress, Some(address(5))));
    let mut open = task_in(TaskStatus::Open, None);
    assert_eq!(open.submit(&address(5), &address(5)), Err(CustomError::NotAssigned));
    assert_eq!(open, task_in(TaskStatus::Open, None));
}

#[test]
fn submit_tells_addresses_apart_in_every_byte() {
    let mut near = [5u8; 32];
    near[31] = 6;
    let mut task = task_in(TaskStatus::InProgress, Some(address(5)));
    assert_eq!(
        task.submit(&address(5), &Pubkey::new_from_array(near)),
        Err(CustomError::NotAssigned)
    );
    assert_eq!(task.submit(&address(5), &Pubkey::new_from_array([5u8; 32])), Ok(()));
}

#[test]
fn resolve_completes_or_reopens() {
    let mut task = task_in(TaskStatus::PendingReview, Some(address(5)));
    task.resolve(true);
    assert_eq!(task, task_in(TaskStatus::Completed, None));
    let mut task = task_in(TaskStatus::PendingReview, Some(address(5)));
    task.resolve(false);
    assert_eq!(task, task_in(TaskStatus::Open, None));
}

#[test]
fn review_on_approval_completes_and_credits() {
    let mut task = task_in(TaskStatus::PendingReview, Some(address(5)));
    let mut member = member_with(0);
    task.review(&mut member, true);
    assert_eq!(task, task_in(TaskStatus::Completed, None));
    assert_eq!(member, member_with(1));
    assert_eq!(task.submit(&address(5), &address(5)), Err(CustomError::NotAssigned));
    assert_eq!(task, task_in(TaskStatus::Completed, None));
}

#[test]
fn review_on_rejection_reopens_and_credits_nothing() {
    let mut task = task_in(TaskStatus::PendingReview, Some(address(5)));
    let mut member = member_with(3);
    task.review(&mut member, false);
    assert_eq!(task, task_in(TaskStatus::Open, None));
    assert_eq!(member, member_with(3));
}

#[test]
fn review_applies_in_any_stage() {
    for status in
        [TaskStatus::Open, TaskStatus::InProgress, TaskStatus::PendingReview, TaskStatus::Completed]
    {
        for assignee in [None, Some(address(5))] {
            let mut task = task_in(status, assignee);
            let mut member = member_with(0);
            task.review(&mut member, true);
            assert_eq!(task, task_in(TaskStatus::Completed, None));
            assert_eq!(member.tasks_completed, 1);
            task.review(&mut member, false);
            assert_eq!(task, task_in(TaskStatus::Open, None));
            assert_eq!(member.tasks_completed, 1);
        }
    }
}

#[test]
fn holder_check_compares_addresses() {
    let task = task_in(TaskStatus::InProgress, Some(address(5)));
    assert!(is_assignee(&task, &address(5)));
    assert!(!is_assignee(&task, &address(6)));
    assert!(!is_assignee(&task_in(TaskStatus::Open, None), &address(5)));
}

#[test]
fn guard_rules_only_on_handing_in() {
    let held = task_in(TaskStatus::InProgress, Some(address(5)));
    let caller = address(9);
    assert!(authorize(Action::SubmitTask, &caller, Some(&held), Some(&address(5))));
    assert!(!authorize(Action::SubmitTask, &caller, Some(&held), Some(&address(6))));
    assert!(!authorize(Action::SubmitTask, &caller, Some(&held), None));
    assert!(!authorize(Action::SubmitTask, &caller, None, Some(&address(5))));
    assert!(!authorize(Action::SubmitTask, &address(5), Some(&held), Some(&address(6))));
    for action in [
        Action::InitializeDao,
        Action::AddMember,
        Action::CreateTask,
        Action::AssignTask,
        Action::ReviewTask,
    ] {
        assert!(authorize(action, &caller, None, None));
        assert!(authorize(action, &caller, Some(&held), Some(&address(6))));
    }
}

#[test]
fn clones_are_equal_to_what_was_cloned() {
    let dao = DaoState::new(address(7), "Acme".to_string()).unwrap();
    assert_eq!(dao.clone(), dao);
    let member = member_with(9);
    assert_eq!(member.clone(), member);
    let task = task_in(TaskStatus::PendingReview, Some(address(5)));
    assert_eq!(task.clone(), task);
}
