use toolbox::app_state::{ConfirmationDialogue, InputMode, MenuItem, ProcessSortType, StatusMessage, StatusMessageType, SystemViewMode};
use toolbox::backup::{format_backup_size, BackupInfo, BackupMetadata, BackupType};
use toolbox::config::{AppConfig, ConfigManager};
use toolbox::logging::{LogLevel, Logger};

#[test]
fn decimal_rendering_is_exact() {
    assert_eq!(toolbox::text::u32_to_string(0), "0");
    assert_eq!(toolbox::text::u32_to_string(42), "42");
    assert_eq!(toolbox::text::u64_to_string(18446744073709551615), "18446744073709551615");
    assert_eq!(toolbox::text::i64_to_string(-1), "-1");
    assert_eq!(toolbox::text::i64_to_string(0), "0");
    assert_eq!(toolbox::text::i64_to_string(i64::MIN), "-9223372036854775808");
    assert_eq!(toolbox::text::i64_to_string(i64::MAX), "9223372036854775807");
}

#[test]
fn text_helpers() {
    assert_eq!(toolbox::text::to_lowercase("MiXeD 123 ÄÖ"), "mixed 123 ÄÖ");
    assert!(toolbox::text::str_contains("haystack", "hay"));
    assert!(toolbox::text::str_contains("haystack", "stack"));
    assert!(toolbox::text::str_contains("haystack", ""));
    assert!(!toolbox::text::str_contains("haystack", "needle"));
    assert!(!toolbox::text::str_contains("ab", "abc"));
    assert_eq!(toolbox::text::filter_digits("(555) 123-4567"), "5551234567");
    assert!(toolbox::text::str_eq("same", "same"));
    assert!(!toolbox::text::str_eq("same", "sameX"));
}

#[test]
fn backup_size_rendering() {
    assert_eq!(format_backup_size(0), "0.0 B");
    assert_eq!(format_backup_size(512), "512.0 B");
    assert_eq!(format_backup_size(1023), "1023.0 B");
    assert_eq!(format_backup_size(1024), "1.0 KB");
    assert_eq!(format_backup_size(1536), "1.5 KB");
    assert_eq!(format_backup_size(1048576), "1.0 MB");
    assert_eq!(format_backup_size(5 * 1024 * 1024 * 1024), "5.0 GB");
}

#[test]
fn backup_metadata_holds_its_fields() {
    let info = BackupInfo {
        filename: "toolbox_backup_x.tar.gz".to_string(),
        metadata: BackupMetadata {
            created_at: 1000,
            version: "0.1.0".to_string(),
            backup_type: BackupType::TasksOnly,
            file_count: 2,
            total_size_bytes: 2048,
            description: "nightly".to_string(),
        },
        file_path: "backups/toolbox_backup_x.tar.gz".to_string(),
    };
    assert!(matches!(info.metadata.backup_type, BackupType::TasksOnly));
    assert_eq!(format_backup_size(info.metadata.total_size_bytes), "2.0 KB");
}

#[test]
fn config_defaults_and_validation() {
    let c = AppConfig::default();
    assert_eq!(c.reminder.check_interval_seconds, 30);
    assert_eq!(c.reminder.max_retry_attempts, 3);
    assert_eq!(c.reminder.retry_delay_seconds, 300);
    assert_eq!(c.logging.level, "info");
    assert_eq!(c.ui.theme, "dark");
    assert_eq!(c.network.user_agent, "Toolbox/1.0");

    let mut m = ConfigManager::new("config/app.json");
    assert!(m.validate().is_ok());
    m.update_logging(false, "chatty");
    assert_eq!(m.validate(), Err("Invalid logging level".to_string()));
    m.update_logging(true, "debug");
    assert!(m.validate().is_ok());
    m.update_ui_theme("sepia");
    assert_eq!(m.validate(), Err("Invalid UI theme".to_string()));
    m.update_ui_theme("light");
    m.update_reminder_interval(5);
    assert_eq!(m.validate(), Err("Reminder check interval too short".to_string()));
    m.update_reminder_interval(60);
    assert!(m.validate().is_ok());
    m.get_mut().security.password_min_length = 2;
    assert_eq!(m.validate(), Err("Password minimum length too short".to_string()));
    m.reset_to_default();
    assert!(m.validate().is_ok());
    assert_eq!(m.get().logging.level, "info");
}

#[test]
fn config_info_summary_is_exact() {
    let m = ConfigManager::new("config/app.json");
    assert_eq!(
        m.get_config_info(),
        "Configuration Info:\n- Config Path: config/app.json\n- Logging Level: info\n- Reminder Check Interval: 30s\n- UI Theme: dark\n- Network Timeout: 30s\n- Auto-lock Timeout: 30min"
    );
}

#[test]
fn logger_threshold_filter() {
    let dbg = Logger::new("logs/t.log", true, LogLevel::Debug);
    let info = Logger::new("logs/t.log", false, LogLevel::Info);
    let warn = Logger::new("logs/t.log", false, LogLevel::Warning);
    let err = Logger::new("logs/t.log", false, LogLevel::Error);
    for lv in [LogLevel::Debug, LogLevel::Info, LogLevel::Warning, LogLevel::Error] {
        assert!(dbg.should_log(lv));
    }
    assert!(!info.should_log(LogLevel::Debug));
    assert!(info.should_log(LogLevel::Info));
    assert!(info.should_log(LogLevel::Error));
    assert!(!warn.should_log(LogLevel::Info));
    assert!(warn.should_log(LogLevel::Warning));
    assert!(!err.should_log(LogLevel::Warning));
    assert!(err.should_log(LogLevel::Error));
    assert_eq!(dbg.file_path(), "logs/t.log");
    assert!(dbg.console_output());
}

#[test]
fn status_message_expiry() {
    let msg = StatusMessage {
        message: "saved".to_string(),
        message_type: StatusMessageType::Success,
        created_at_millis: 1000,
        duration_millis: 500,
    };
    assert!(!msg.is_expired(1499));
    assert!(msg.is_expired(1500));
    assert!(!msg.is_expired(0));
}

#[test]
fn ui_state_vocabulary_round_trips_through_equality() {
    assert_eq!(InputMode::AddingTask, InputMode::AddingTask);
    assert_ne!(InputMode::Normal, InputMode::Editing);
    assert_eq!(MenuItem::TaskScheduler, MenuItem::TaskScheduler);
    assert_eq!(SystemViewMode::Overview, SystemViewMode::Overview);
    assert_eq!(ProcessSortType::CpuUsage, ProcessSortType::CpuUsage);
    let d = ConfirmationDialogue::KillProcess(42, "bash".to_string());
    assert_eq!(d, ConfirmationDialogue::KillProcess(42, "bash".to_string()));
    assert_ne!(d, ConfirmationDialogue::Inactive);
    let e = toolbox::password::PasswordEntry {
        service: "mail".to_string(),
        username: "me".to_string(),
        password: "pw".to_string(),
    };
    let f = e.clone();
    assert_eq!(f.service, "mail");
}

#[test]
fn backup_housekeeping_over_a_listing() {
    let info = |name: &str, size: u64| BackupInfo {
        filename: name.to_string(),
        metadata: BackupMetadata {
            created_at: 0,
            version: "0.1.0".to_string(),
            backup_type: BackupType::Full,
            file_count: 1,
            total_size_bytes: size,
            description: String::new(),
        },
        file_path: format!("backups/{}", name),
    };
    let listing = vec![info("newest", 100), info("middle", 200), info("oldest", 300)];
    let deleted = toolbox::backup::cleanup_old_backups(&listing, 2);
    assert_eq!(deleted, vec!["oldest".to_string()]);
    assert!(toolbox::backup::cleanup_old_backups(&listing, 3).is_empty());
    assert_eq!(
        toolbox::backup::cleanup_old_backups(&listing, 0),
        vec!["newest".to_string(), "middle".to_string(), "oldest".to_string()]
    );
    let (count, total) = toolbox::backup::get_backup_stats(&listing);
    assert_eq!(count, 3);
    assert_eq!(total, 600);
    let huge = vec![info("a", u64::MAX), info("b", 5)];
    let (_, saturated) = toolbox::backup::get_backup_stats(&huge);
    assert_eq!(saturated, u64::MAX);
}

#[test]
fn status_message_preparation() {
    let msg = toolbox::app_state::prepare_status_message(
        "done".to_string(),
        StatusMessageType::Info,
        2000,
    );
    assert_eq!(msg.message, "done");
    assert_eq!(msg.duration_millis, 5000);
    assert!(!msg.is_expired(6999));
    assert!(msg.is_expired(7000));
}
