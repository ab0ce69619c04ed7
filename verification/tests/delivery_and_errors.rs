use toolbox::delivery::{compose_reminder_email, compose_sender, gateway_address, priority_label, provider_of, MailProvider};
use toolbox::scheduler::{EmailConfig, SmsConfig, TaskScheduler};
use toolbox::task::TaskPriority;

#[test]
fn carrier_gateway_resolution() {
    let s = TaskScheduler::new("tasks.json");
    assert_eq!(
        s.get_sms_gateway_email("555-123-4567", "verizon").as_deref(),
        Some("5551234567@vtext.com")
    );
    assert_eq!(
        s.get_sms_gateway_email("(555) 123-4567", "AT&T").as_deref(),
        Some("5551234567@txt.att.net")
    );
    assert_eq!(
        s.get_sms_gateway_email("555", "T-Mobile").as_deref(),
        Some("555@tmomail.net")
    );
    assert_eq!(gateway_address("1", "sprint").as_deref(), Some("1@messaging.sprintpcs.com"));
    assert_eq!(gateway_address("1", "boost").as_deref(), Some("1@myboostmobile.com"));
    assert_eq!(gateway_address("1", "cricket").as_deref(), Some("1@sms.cricketwireless.net"));
    assert_eq!(gateway_address("1", "metropcs").as_deref(), Some("1@mymetropcs.com"));
    assert_eq!(gateway_address("1", "virgin").as_deref(), Some("1@vmobl.com"));
    assert_eq!(gateway_address("1", "uscellular").as_deref(), Some("1@email.uscc.net"));
    assert!(s.get_sms_gateway_email("555-123-4567", "carrier-pigeon").is_none());
}

#[test]
fn provider_classification_by_hostname() {
    assert!(matches!(provider_of("smtp.gmail.com"), MailProvider::Gmail));
    assert!(matches!(provider_of("smtp-mail.outlook.com"), MailProvider::Outlook));
    assert!(matches!(provider_of("smtp.hotmail.example"), MailProvider::Outlook));
    assert!(matches!(provider_of("smtp.mail.yahoo.com"), MailProvider::Yahoo));
    assert!(matches!(provider_of("mail.example.org"), MailProvider::Generic));
}

#[test]
fn reminder_email_composition_is_exact() {
    let (subject, body) = compose_reminder_email("pay rent", "monthly", "2024-01-01 00:00:00", TaskPriority::High);
    assert_eq!(subject, "Reminder: pay rent");
    assert_eq!(
        body,
        "This is a reminder for your task: pay rent\n\nDescription: monthly\n\nDue: 2024-01-01 00:00:00\n\nPriority: High"
    );
    assert_eq!(compose_sender("Task Scheduler", "a@b.c"), "Task Scheduler <a@b.c>");
    assert_eq!(priority_label(TaskPriority::Low), "Low");
    assert_eq!(priority_label(TaskPriority::Medium), "Medium");
    assert_eq!(priority_label(TaskPriority::Urgent), "Urgent");
}

#[test]
fn send_reminder_email_error_paths() {
    let mut s = TaskScheduler::new("tasks.json");
    // the task was deleted while a delivery was in flight: a typed
    // not-found error, never a panic
    assert_eq!(
        s.send_reminder_email(3),
        Err("Task with ID 3 not found".to_string())
    );
    let id = s.add_task("t".to_string(), "".to_string(), 0, TaskPriority::Low, vec![]);
    assert_eq!(
        s.send_reminder_email(id),
        Err("Email configuration not set".to_string())
    );
    s.set_email_config(EmailConfig {
        email: "".to_string(),
        ..EmailConfig::default()
    });
    assert_eq!(
        s.send_reminder_email(id),
        Err("Email configuration is incomplete. Please check your settings.".to_string())
    );
    s.delete_task(id).unwrap();
    assert_eq!(
        s.send_reminder_email(id),
        Err(format!("Task with ID {} not found", id))
    );
}

#[test]
fn test_email_config_error_paths() {
    let mut s = TaskScheduler::new("tasks.json");
    assert_eq!(s.test_email_config(), Err("Email configuration not set".to_string()));
    s.set_email_config(EmailConfig {
        email: "a@b.c".to_string(),
        smtp_server: "".to_string(),
        ..EmailConfig::default()
    });
    assert_eq!(
        s.test_email_config(),
        Err("Email configuration is incomplete. Please check your settings.".to_string())
    );
}

#[test]
fn send_sms_error_paths() {
    let mut s = TaskScheduler::new("tasks.json");
    assert_eq!(
        s.send_sms_reminder(1, "hi"),
        Err("SMS configuration not set".to_string())
    );
    s.set_sms_config(SmsConfig {
        phone_number: "555".to_string(),
        carrier: "verizon".to_string(),
        enabled: false,
    });
    assert_eq!(
        s.send_sms_reminder(1, "hi"),
        Err("SMS is disabled in configuration".to_string())
    );
    s.set_sms_config(SmsConfig {
        phone_number: "555".to_string(),
        carrier: "verizon".to_string(),
        enabled: true,
    });
    assert_eq!(
        s.send_sms_reminder(1, "hi"),
        Err("Email configuration required for SMS (uses email-to-SMS gateway)".to_string())
    );
    s.set_email_config(EmailConfig {
        email: "a@b.c".to_string(),
        smtp_server: "mail.example.org".to_string(),
        username: "u".to_string(),
        ..EmailConfig::default()
    });
    s.set_sms_config(SmsConfig {
        phone_number: "555".to_string(),
        carrier: "smoke-signal".to_string(),
        enabled: true,
    });
    assert_eq!(
        s.send_sms_reminder(1, "hi"),
        Err("Unsupported carrier: smoke-signal".to_string())
    );
}

#[test]
fn message_clipping_for_sms() {
    let short = "x".repeat(160);
    assert_eq!(toolbox::text::clip_message(&short, 160), short);
    let long = "y".repeat(161);
    let clipped = toolbox::text::clip_message(&long, 160);
    assert_eq!(clipped.chars().count(), 160);
    assert!(clipped.ends_with("..."));
    assert_eq!(&clipped[..157], &long[..157]);
}

#[test]
fn prepared_deliveries_carry_the_composed_values() {
    let mut s = TaskScheduler::new("tasks.json");
    let id = s.add_task("pay rent".to_string(), "monthly".to_string(), 0, TaskPriority::High, vec![]);
    s.set_email_config(EmailConfig {
        email: "me@example.org".to_string(),
        smtp_server: "mail.example.org".to_string(),
        username: "me".to_string(),
        password: "pw".to_string(),
        ..EmailConfig::default()
    });
    let mail = s.prepare_reminder_email(id).unwrap();
    assert_eq!(mail.from, "Task Scheduler <me@example.org>");
    assert_eq!(mail.to, "me@example.org");
    assert_eq!(mail.subject, "Reminder: pay rent");
    assert!(mail.body.starts_with("This is a reminder for your task: pay rent\n\nDescription: monthly\n\nDue: "));
    assert!(mail.body.ends_with("\n\nPriority: High"));
    assert_eq!(mail.smtp_server, "mail.example.org");
    assert_eq!(mail.smtp_port, 587);
    assert_eq!(mail.username, "me");

    s.set_sms_config(SmsConfig {
        phone_number: "555-123-4567".to_string(),
        carrier: "verizon".to_string(),
        enabled: true,
    });
    let text = s.prepare_sms_reminder(&"z".repeat(200)).unwrap();
    assert_eq!(text.from, "Task Reminder <me@example.org>");
    assert_eq!(text.to, "5551234567@vtext.com");
    assert_eq!(text.subject, "");
    assert_eq!(text.body.chars().count(), 160);
    assert!(text.body.ends_with("..."));
    // the preparation errors mirror the send's
    match s.prepare_reminder_email(99) {
        Err(e) => assert_eq!(e, "Task with ID 99 not found"),
        Ok(_) => panic!("a missing task must not prepare"),
    }
}

#[test]
fn prepared_test_email_carries_the_fixed_message() {
    let mut s = TaskScheduler::new("tasks.json");
    match s.prepare_test_email() {
        Err(e) => assert_eq!(e, "Email configuration not set"),
        Ok(_) => panic!("missing settings must not prepare"),
    }
    s.set_email_config(EmailConfig {
        email: "me@example.org".to_string(),
        smtp_server: "mail.example.org".to_string(),
        username: "me".to_string(),
        password: "pw".to_string(),
        ..EmailConfig::default()
    });
    // complete settings always prepare
    let mail = s.prepare_test_email().unwrap();
    assert_eq!(mail.from, "Task Scheduler <me@example.org>");
    assert_eq!(mail.to, "me@example.org");
    assert_eq!(mail.subject, "Test Email from Task Scheduler");
    assert_eq!(
        mail.body,
        "This is a test email to verify your email configuration is working correctly."
    );
    assert_eq!(mail.smtp_server, "mail.example.org");
    assert_eq!(mail.smtp_port, 587);
    assert_eq!(mail.username, "me");
}
