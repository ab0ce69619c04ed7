use toolbox::codec::decode_store_text;
use toolbox::scheduler::TaskScheduler;
use toolbox::task::{ReminderType, TaskPriority, TaskStatus};

#[test]
fn empty_store_round_trips() {
    let s = TaskScheduler::new("tasks.json");
    let text = s.save_string();
    assert_eq!(text, "[[],1]");
    let loaded = decode_store_text(&text, "tasks.json").unwrap();
    assert!(loaded.get_all_tasks().is_empty());
    // the counter came back too: the next id is still 1
    let mut loaded = loaded;
    let id = loaded.add_task("x".to_string(), "".to_string(), 0, TaskPriority::Low, vec![]);
    assert_eq!(id, 1);
}

#[test]
fn populated_store_round_trips_identically() {
    let mut s = TaskScheduler::new("tasks.json");
    let a = s.add_task(
        "quote \"this\" and \\that\\".to_string(),
        "desc with, commas ] and [brackets\nand a newline".to_string(),
        -123456,
        TaskPriority::Urgent,
        vec!["home".to_string(), "später".to_string()],
    );
    let b = s.add_task("plain".to_string(), "".to_string(), 777, TaskPriority::Low, vec![]);
    s.delete_task(b).unwrap();
    let c = s.add_task("third".to_string(), "d".to_string(), 0, TaskPriority::Medium, vec![]);
    s.add_reminder_to_task(a, 500, ReminderType::All).unwrap();
    s.add_reminder_to_task(a, -5, ReminderType::Notification).unwrap();
    s.add_reminder_to_task(c, 9, ReminderType::Sms).unwrap();
    let _ = s.check_reminders_at(500);
    s.record_reminder_error(a, 0, "gateway \"oops\"".to_string()).unwrap();
    {
        let t = s.get_task_mut(c).unwrap();
        t.set_status(TaskStatus::InProgress);
    }

    let text = s.save_string();
    let loaded = decode_store_text(&text, "tasks.json").unwrap();

    let orig = s.get_all_tasks();
    let back = loaded.get_all_tasks();
    assert_eq!(orig.len(), back.len());
    for (x, y) in orig.iter().zip(back.iter()) {
        assert_eq!(x.id, y.id);
        assert_eq!(x.title, y.title);
        assert_eq!(x.description, y.description);
        assert_eq!(x.due_date, y.due_date);
        assert_eq!(x.priority, y.priority);
        assert_eq!(x.status, y.status);
        assert_eq!(x.created_at, y.created_at);
        assert_eq!(x.tags, y.tags);
        assert_eq!(x.reminders.len(), y.reminders.len());
        for (p, q) in x.reminders.iter().zip(y.reminders.iter()) {
            assert_eq!(p.reminder_time, q.reminder_time);
            assert_eq!(p.reminder_type, q.reminder_type);
            assert_eq!(p.sent, q.sent);
            assert_eq!(p.retry_count, q.retry_count);
            assert_eq!(p.last_attempt, q.last_attempt);
            assert_eq!(p.error_message, q.error_message);
        }
    }
    // the id counter survives: the next add continues the sequence
    let mut loaded = loaded;
    let d = loaded.add_task("next".to_string(), "".to_string(), 0, TaskPriority::Low, vec![]);
    assert_eq!(d, 4);
}

#[test]
fn saving_twice_gives_the_same_document() {
    let mut s = TaskScheduler::new("tasks.json");
    s.add_task("a".to_string(), "b".to_string(), 5, TaskPriority::Low, vec![]);
    assert_eq!(s.save_string(), s.save_string());
}

#[test]
fn malformed_documents_are_rejected() {
    assert!(decode_store_text("", "p").is_none());
    assert!(decode_store_text("{}", "p").is_none());
    assert!(decode_store_text("[[]", "p").is_none());
    assert!(decode_store_text("[[],0]", "p").is_none()); // counter below one
    assert!(decode_store_text("[[],1]trailing", "p").is_none());
    assert!(decode_store_text("[[],99999999999999999999]", "p").is_none());
}

#[test]
fn documents_with_bad_ids_are_rejected() {
    // two tasks under the same id
    let dup = "[[[1,\"a\",\"\",0,0,0,0,[],[]],[1,\"b\",\"\",0,0,0,0,[],[]]],5]";
    assert!(decode_store_text(dup, "p").is_none());
    // an id at or above the saved counter
    let high = "[[[7,\"a\",\"\",0,0,0,0,[],[]]],5]";
    assert!(decode_store_text(high, "p").is_none());
    // the same task under a large enough counter is fine
    let ok = "[[[7,\"a\",\"\",0,0,0,0,[],[]]],8]";
    assert!(decode_store_text(ok, "p").is_some());
}

#[test]
fn hand_written_document_decodes() {
    let text = "[[[2,\"title\",\"d\",-10,2,1,42,[[5,4,false,1,99,\"err\"],[6,1,true,3,null,null]],[\"x\",\"y\"]]],3]";
    let s = decode_store_text(text, "p").unwrap();
    let t = s.get_task(2).unwrap();
    assert_eq!(t.title, "title");
    assert_eq!(t.due_date, -10);
    assert!(matches!(t.priority, TaskPriority::High));
    assert!(matches!(t.status, TaskStatus::InProgress));
    assert_eq!(t.created_at, 42);
    assert_eq!(t.reminders.len(), 2);
    assert!(matches!(t.reminders[0].reminder_type, ReminderType::All));
    assert_eq!(t.reminders[0].last_attempt, Some(99));
    assert_eq!(t.reminders[0].error_message.as_deref(), Some("err"));
    assert!(t.reminders[1].sent);
    assert_eq!(t.reminders[1].last_attempt, None);
    assert_eq!(t.tags, vec!["x".to_string(), "y".to_string()]);
}

#[test]
fn email_config_round_trips() {
    let config = toolbox::scheduler::EmailConfig {
        email: "me@example.org".to_string(),
        smtp_server: "smtp.example.org".to_string(),
        smtp_port: 465,
        username: "me".to_string(),
        password: "a \"quoted\\\" secret".to_string(),
        retry_attempts: 5,
        retry_delay_seconds: 7,
    };
    let text = toolbox::codec::encode_email_config(&config);
    let back = toolbox::codec::decode_email_config(&text).unwrap();
    assert_eq!(back.email, config.email);
    assert_eq!(back.smtp_server, config.smtp_server);
    assert_eq!(back.smtp_port, config.smtp_port);
    assert_eq!(back.username, config.username);
    assert_eq!(back.password, config.password);
    assert_eq!(back.retry_attempts, config.retry_attempts);
    assert_eq!(back.retry_delay_seconds, config.retry_delay_seconds);
    assert!(toolbox::codec::decode_email_config("[]").is_none());
}

#[test]
fn sms_config_round_trips() {
    let config = toolbox::scheduler::SmsConfig {
        phone_number: "555-123-4567".to_string(),
        carrier: "verizon".to_string(),
        enabled: true,
    };
    let text = toolbox::codec::encode_sms_config(&config);
    assert_eq!(text, "[\"555-123-4567\",\"verizon\",true]");
    let back = toolbox::codec::decode_sms_config(&text).unwrap();
    assert_eq!(back.phone_number, config.phone_number);
    assert_eq!(back.carrier, config.carrier);
    assert!(back.enabled);
    assert!(toolbox::codec::decode_sms_config("[\"a\",\"b\"]").is_none());
}
