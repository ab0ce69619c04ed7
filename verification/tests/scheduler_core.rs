use toolbox::scheduler::{SchedulerError, TaskScheduler};
use toolbox::task::{ReminderType, TaskPriority, TaskStatus};

fn store() -> TaskScheduler {
    TaskScheduler::new("tasks.json")
}

#[test]
fn add_task_returns_sequential_ids() {
    let mut s = store();
    let a = s.add_task("one".to_string(), "".to_string(), 100, TaskPriority::Low, vec![]);
    let b = s.add_task("two".to_string(), "".to_string(), 200, TaskPriority::High, vec![]);
    assert_eq!(a, 1);
    assert_eq!(b, 2);
}

#[test]
fn ids_never_reused_after_delete() {
    let mut s = store();
    let a = s.add_task("one".to_string(), "".to_string(), 100, TaskPriority::Low, vec![]);
    let b = s.add_task("two".to_string(), "".to_string(), 200, TaskPriority::Low, vec![]);
    s.delete_task(a).unwrap();
    s.delete_task(b).unwrap();
    let c = s.add_task("three".to_string(), "".to_string(), 300, TaskPriority::Low, vec![]);
    assert!(c > b);
    assert_eq!(c, 3);
}

#[test]
fn added_task_starts_pending_with_fields() {
    let mut s = store();
    let id = s.add_task(
        "write report".to_string(),
        "the quarterly one".to_string(),
        12345,
        TaskPriority::Urgent,
        vec!["work".to_string()],
    );
    let t = s.get_task(id).unwrap();
    assert_eq!(t.id, id);
    assert_eq!(t.title, "write report");
    assert_eq!(t.description, "the quarterly one");
    assert_eq!(t.due_date, 12345);
    assert!(matches!(t.priority, TaskPriority::Urgent));
    assert!(matches!(t.status, TaskStatus::Pending));
    assert!(t.reminders.is_empty());
    assert_eq!(t.tags, vec!["work".to_string()]);
}

#[test]
fn get_task_absent_is_none() {
    let s = store();
    assert!(s.get_task(7).is_none());
}

#[test]
fn update_task_replaces_and_keeps_id() {
    let mut s = store();
    let id = s.add_task("old".to_string(), "".to_string(), 1, TaskPriority::Low, vec![]);
    let mut replacement = toolbox::task::Task::new(
        999,
        "new".to_string(),
        "desc".to_string(),
        2,
        TaskPriority::High,
        vec![],
    );
    replacement.status = TaskStatus::InProgress;
    s.update_task(id, replacement).unwrap();
    let t = s.get_task(id).unwrap();
    assert_eq!(t.id, id);
    assert_eq!(t.title, "new");
    assert!(matches!(t.status, TaskStatus::InProgress));
}

#[test]
fn update_task_absent_fails() {
    let mut s = store();
    let t = toolbox::task::Task::new(1, "x".to_string(), "".to_string(), 0, TaskPriority::Low, vec![]);
    assert_eq!(s.update_task(42, t), Err(SchedulerError::TaskNotFound { id: 42 }));
}

#[test]
fn delete_task_absent_fails() {
    let mut s = store();
    assert_eq!(s.delete_task(5), Err(SchedulerError::TaskNotFound { id: 5 }));
}

#[test]
fn delete_removes_task_and_reminders() {
    let mut s = store();
    let id = s.add_task("t".to_string(), "".to_string(), 1, TaskPriority::Low, vec![]);
    s.add_reminder_to_task(id, 10, ReminderType::Email).unwrap();
    s.delete_task(id).unwrap();
    assert!(s.get_task(id).is_none());
    assert!(s.get_all_tasks().is_empty());
}

#[test]
fn queries_filter_by_status_and_priority() {
    let mut s = store();
    let a = s.add_task("a".to_string(), "".to_string(), 1, TaskPriority::Low, vec![]);
    let _b = s.add_task("b".to_string(), "".to_string(), 2, TaskPriority::High, vec![]);
    {
        let t = s.get_task_mut(a).unwrap();
        t.set_status(TaskStatus::Completed);
    }
    let pending = s.get_pending_tasks();
    assert_eq!(pending.len(), 1);
    assert_eq!(pending[0].title, "b");
    let high = s.get_tasks_by_priority(TaskPriority::High);
    assert_eq!(high.len(), 1);
    assert_eq!(high[0].title, "b");
    let done = s.get_tasks_by_status(TaskStatus::Completed);
    assert_eq!(done.len(), 1);
    assert_eq!(done[0].title, "a");
    assert_eq!(s.get_all_tasks().len(), 2);
    assert_eq!(s.list_tasks().len(), 2);
}

#[test]
fn due_tasks_at_a_given_instant() {
    let mut s = store();
    s.add_task("past".to_string(), "".to_string(), 100, TaskPriority::Low, vec![]);
    s.add_task("future".to_string(), "".to_string(), 1000, TaskPriority::Low, vec![]);
    let due = s.get_due_tasks_at(500);
    assert_eq!(due.len(), 1);
    assert_eq!(due[0].title, "past");
}

#[test]
fn search_is_case_insensitive_over_title_description_tags() {
    let mut s = store();
    s.add_task("Buy Milk".to_string(), "".to_string(), 1, TaskPriority::Low, vec![]);
    s.add_task("other".to_string(), "includes MILK too".to_string(), 2, TaskPriority::Low, vec![]);
    s.add_task("third".to_string(), "".to_string(), 3, TaskPriority::Low, vec!["milky".to_string()]);
    s.add_task("unrelated".to_string(), "".to_string(), 4, TaskPriority::Low, vec![]);
    let hits = s.search_tasks("milk");
    assert_eq!(hits.len(), 3);
    let hits = s.search_tasks("MILK");
    assert_eq!(hits.len(), 3);
    let hits = s.search_tasks("nothing-here");
    assert!(hits.is_empty());
}

#[test]
fn add_reminder_to_absent_task_fails() {
    let mut s = store();
    assert_eq!(
        s.add_reminder_to_task(9, 100, ReminderType::Email),
        Err(SchedulerError::TaskNotFound { id: 9 })
    );
}

#[test]
fn mark_reminder_as_sent_sets_flag_and_clears_error() {
    let mut s = store();
    let id = s.add_task("t".to_string(), "".to_string(), 1, TaskPriority::Low, vec![]);
    s.add_reminder_to_task(id, 10, ReminderType::Email).unwrap();
    s.record_reminder_error(id, 0, "boom".to_string()).unwrap();
    assert_eq!(
        s.get_task(id).unwrap().reminders[0].error_message.as_deref(),
        Some("boom")
    );
    s.mark_reminder_as_sent(id, 0).unwrap();
    let r = &s.get_task(id).unwrap().reminders[0];
    assert!(r.sent);
    assert!(r.error_message.is_none());
}

#[test]
fn mark_reminder_bad_index_fails() {
    let mut s = store();
    let id = s.add_task("t".to_string(), "".to_string(), 1, TaskPriority::Low, vec![]);
    assert_eq!(
        s.mark_reminder_as_sent(id, 0),
        Err(SchedulerError::ReminderNotFound { id, index: 0 })
    );
    assert_eq!(
        s.mark_reminder_as_sent(77, 0),
        Err(SchedulerError::TaskNotFound { id: 77 })
    );
}

#[test]
fn task_level_helpers() {
    let mut t = toolbox::task::Task::new(
        1,
        "t".to_string(),
        "".to_string(),
        100,
        TaskPriority::Medium,
        vec![],
    );
    assert!(t.is_due_at(100));
    assert!(t.is_due_at(101));
    assert!(!t.is_due_at(99));
    assert!(!t.has_pending_reminders_at(1000));
    t.add_reminder(500, ReminderType::Email);
    assert!(t.has_pending_reminders_at(500));
    assert!(!t.has_pending_reminders_at(499));
    t.add_tag("home".to_string());
    t.add_tag("home".to_string());
    assert_eq!(t.tags.len(), 1);
    t.set_priority(TaskPriority::Urgent);
    assert!(matches!(t.priority, TaskPriority::Urgent));
    t.set_status(TaskStatus::Cancelled);
    assert!(matches!(t.status, TaskStatus::Cancelled));
}

#[test]
fn type_defaults() {
    assert!(matches!(TaskPriority::default(), TaskPriority::Medium));
    assert!(matches!(TaskStatus::default(), TaskStatus::Pending));
    assert!(matches!(ReminderType::default(), ReminderType::Email));
    let c = toolbox::scheduler::EmailConfig::default();
    assert_eq!(c.smtp_port, 587);
    assert_eq!(c.retry_attempts, 3);
    assert_eq!(c.retry_delay_seconds, 5);
    assert!(c.email.is_empty());
}

#[test]
fn pending_reminders_query_counts_any_unsent_reminder() {
    let mut s = store();
    let a = s.add_task("future".to_string(), "".to_string(), 1, TaskPriority::Low, vec![]);
    let b = s.add_task("none".to_string(), "".to_string(), 2, TaskPriority::Low, vec![]);
    let c = s.add_task("delivered".to_string(), "".to_string(), 3, TaskPriority::Low, vec![]);
    // an unsent reminder counts even when its trigger time is far ahead
    s.add_reminder_to_task(a, i64::MAX, ReminderType::Email).unwrap();
    s.add_reminder_to_task(c, 0, ReminderType::Email).unwrap();
    s.mark_reminder_as_sent(c, 0).unwrap();
    let hits = s.get_tasks_with_pending_reminders();
    assert_eq!(hits.len(), 1);
    assert_eq!(hits[0].id, a);
    let _ = b;
}
