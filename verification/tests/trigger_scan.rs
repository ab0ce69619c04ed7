use toolbox::scheduler::TaskScheduler;
use toolbox::task::{ReminderType, TaskPriority, MAX_RETRIES, RETRY_DELAY_SECONDS};

fn store_with_reminder(rt: ReminderType, due: i64) -> (TaskScheduler, u32) {
    let mut s = TaskScheduler::new("tasks.json");
    let id = s.add_task("meeting".to_string(), "room 4".to_string(), due, TaskPriority::High, vec![]);
    s.add_reminder_to_task(id, due, rt).unwrap();
    (s, id)
}

#[test]
fn email_reminder_triggers_one_deferred_entry() {
    let (mut s, id) = store_with_reminder(ReminderType::Email, 1000);
    let out = s.check_reminders_at(1000);
    assert_eq!(out.len(), 1);
    let (tid, title, rt, idx) = &out[0];
    assert_eq!(*tid, id);
    assert_eq!(title, "meeting");
    assert!(matches!(rt, ReminderType::Email));
    assert_eq!(*idx, Some(0));
    let r = &s.get_task(id).unwrap().reminders[0];
    assert_eq!(r.retry_count, 1);
    assert!(!r.sent);
    assert_eq!(r.last_attempt, Some(1000));
    s.mark_reminder_as_sent(id, 0).unwrap();
    assert!(s.get_task(id).unwrap().reminders[0].sent);
}

#[test]
fn reminder_not_due_does_not_trigger() {
    let (mut s, _) = store_with_reminder(ReminderType::Email, 1000);
    let out = s.check_reminders_at(999);
    assert!(out.is_empty());
}

#[test]
fn sent_reminder_never_triggers_again() {
    let (mut s, id) = store_with_reminder(ReminderType::Email, 1000);
    let _ = s.check_reminders_at(1000);
    s.mark_reminder_as_sent(id, 0).unwrap();
    // far future, well past every retry window
    let out = s.check_reminders_at(1_000_000_000);
    assert!(out.is_empty());
}

#[test]
fn retry_attempts_are_bounded() {
    let (mut s, id) = store_with_reminder(ReminderType::Email, 0);
    let gap = RETRY_DELAY_SECONDS + 1;
    let mut now = 0i64;
    for _ in 0..MAX_RETRIES {
        let out = s.check_reminders_at(now);
        assert_eq!(out.len(), 1);
        now += gap;
    }
    assert_eq!(s.get_task(id).unwrap().reminders[0].retry_count, MAX_RETRIES);
    // attempts exhausted: never again, however far time advances
    assert!(s.check_reminders_at(now).is_empty());
    assert!(s.check_reminders_at(i64::MAX).is_empty());
}

#[test]
fn attempts_are_spaced_by_the_retry_delay() {
    let (mut s, _) = store_with_reminder(ReminderType::Email, 0);
    let out = s.check_reminders_at(0);
    assert_eq!(out.len(), 1);
    // within the delay window nothing fires, even exactly at the bound
    assert!(s.check_reminders_at(RETRY_DELAY_SECONDS - 1).is_empty());
    assert!(s.check_reminders_at(RETRY_DELAY_SECONDS).is_empty());
    // one past the bound it fires again
    let out = s.check_reminders_at(RETRY_DELAY_SECONDS + 1);
    assert_eq!(out.len(), 1);
}

#[test]
fn notification_reminder_is_sent_immediately() {
    let (mut s, id) = store_with_reminder(ReminderType::Notification, 100);
    let out = s.check_reminders_at(100);
    assert_eq!(out.len(), 1);
    let (tid, _, rt, idx) = &out[0];
    assert_eq!(*tid, id);
    assert!(matches!(rt, ReminderType::Notification));
    assert_eq!(*idx, None);
    // sent with no later confirmation step
    assert!(s.get_task(id).unwrap().reminders[0].sent);
}

#[test]
fn both_reminder_emits_notification_and_deferred_email() {
    let (mut s, id) = store_with_reminder(ReminderType::Both, 100);
    let out = s.check_reminders_at(100);
    assert_eq!(out.len(), 2);
    assert!(matches!(out[0].2, ReminderType::Notification));
    assert_eq!(out[0].3, None);
    assert!(matches!(out[1].2, ReminderType::Email));
    assert_eq!(out[1].3, Some(0));
    // the email leg still awaits confirmation
    assert!(!s.get_task(id).unwrap().reminders[0].sent);
}

#[test]
fn all_reminder_emits_exactly_three_entries() {
    let (mut s, id) = store_with_reminder(ReminderType::All, 100);
    let out = s.check_reminders_at(100);
    assert_eq!(out.len(), 3);
    assert!(matches!(out[0].2, ReminderType::Notification));
    assert_eq!(out[0].3, None);
    assert!(matches!(out[1].2, ReminderType::Email));
    assert_eq!(out[1].3, Some(0));
    assert!(matches!(out[2].2, ReminderType::Sms));
    assert_eq!(out[2].3, Some(0));
    assert_eq!(out[0].0, id);
    assert_eq!(out[1].0, id);
    assert_eq!(out[2].0, id);
    assert_eq!(s.get_task(id).unwrap().reminders[0].retry_count, 1);
}

#[test]
fn scan_handles_many_tasks_in_store_order() {
    let mut s = TaskScheduler::new("tasks.json");
    let a = s.add_task("first".to_string(), "".to_string(), 0, TaskPriority::Low, vec![]);
    let b = s.add_task("second".to_string(), "".to_string(), 0, TaskPriority::Low, vec![]);
    s.add_reminder_to_task(a, 10, ReminderType::Email).unwrap();
    s.add_reminder_to_task(b, 20, ReminderType::Sms).unwrap();
    s.add_reminder_to_task(b, 5000, ReminderType::Email).unwrap();
    let out = s.check_reminders_at(100);
    assert_eq!(out.len(), 2);
    assert_eq!(out[0].0, a);
    assert!(matches!(out[0].2, ReminderType::Email));
    assert_eq!(out[1].0, b);
    assert!(matches!(out[1].2, ReminderType::Sms));
    // the reminder not yet due is untouched
    assert_eq!(s.get_task(b).unwrap().reminders[1].retry_count, 0);
}

#[test]
fn empty_store_scan_is_empty() {
    let mut s = TaskScheduler::new("tasks.json");
    assert!(s.check_reminders_at(1_000_000).is_empty());
}

#[test]
fn failed_delivery_error_is_recorded_and_retried() {
    let (mut s, id) = store_with_reminder(ReminderType::Email, 0);
    let _ = s.check_reminders_at(0);
    s.record_reminder_error(id, 0, "smtp down".to_string()).unwrap();
    let r = &s.get_task(id).unwrap().reminders[0];
    assert!(!r.sent);
    assert_eq!(r.retry_count, 1);
    assert_eq!(r.error_message.as_deref(), Some("smtp down"));
    // still retried after the delay
    let out = s.check_reminders_at(RETRY_DELAY_SECONDS + 1);
    assert_eq!(out.len(), 1);
}

#[test]
fn wall_clock_scan_triggers_long_overdue_reminder() {
    let mut s = TaskScheduler::new("tasks.json");
    let id = s.add_task("ancient".to_string(), "".to_string(), 0, TaskPriority::Low, vec![]);
    // a reminder scheduled at the epoch is long due by any wall clock
    s.add_reminder_to_task(id, 0, ReminderType::Email).unwrap();
    let out = s.check_reminders();
    assert_eq!(out.len(), 1);
    assert_eq!(out[0].0, id);
    let r = &s.get_task(id).unwrap().reminders[0];
    assert_eq!(r.retry_count, 1);
    assert!(r.last_attempt.is_some());
}
