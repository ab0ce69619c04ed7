//! Application configuration: the settings tree, its defaults, its
//! validation rules, and the manager that holds the current settings in
//! memory. Reading and writing the settings file is the caller's step.

use vstd::prelude::*;

verus! {

#[derive(Debug, Clone)]
pub struct LoggingConfig {
    pub enabled: bool,
    pub level: String,
    pub console_output: bool,
    pub file_path: String,
    pub max_file_size_mb: u64,
    pub max_files: u32,
}

#[derive(Debug, Clone)]
pub struct ReminderConfig {
    pub check_interval_seconds: u64,
    pub max_retry_attempts: u32,
    pub retry_delay_seconds: u64,
    pub default_reminder_advance_minutes: i64,
    pub email_timeout_seconds: u64,
}

#[derive(Debug, Clone)]
pub struct SecurityConfig {
    pub password_min_length: usize,
    pub encryption_key_rotation_days: u32,
    pub auto_lock_timeout_minutes: u32,
    pub require_confirmation_for_deletion: bool,
}

#[derive(Debug, Clone)]
pub struct UiConfig {
    pub theme: String,
    pub refresh_rate_ms: u64,
    pub show_status_bar: bool,
    pub compact_mode: bool,
    pub default_date_format: String,
}

#[derive(Debug, Clone)]
pub struct NetworkConfig {
    pub timeout_seconds: u64,
    pub max_retries: u32,
    pub user_agent: String,
    pub speed_test_duration_seconds: u64,
}

#[derive(Debug, Clone)]
pub struct AppConfig {
    pub logging: LoggingConfig,
    pub reminder: ReminderConfig,
    pub security: SecurityConfig,
    pub ui: UiConfig,
    pub network: NetworkConfig,
}

/// The configuration the application starts from.
pub open spec fn is_default_config(c: AppConfig) -> bool {
    &&& c.logging.enabled == true
    &&& c.logging.level@ == "info"@
    &&& c.logging.console_output == true
    &&& c.logging.file_path@ == "logs/toolbox.log"@
    &&& c.logging.max_file_size_mb == 10
    &&& c.logging.max_files == 5
    &&& c.reminder.check_interval_seconds == 30
    &&& c.reminder.max_retry_attempts == 3
    &&& c.reminder.retry_delay_seconds == 300
    &&& c.reminder.default_reminder_advance_minutes == 15
    &&& c.reminder.email_timeout_seconds == 30
    &&& c.security.password_min_length == 8
    &&& c.security.encryption_key_rotation_days == 90
    &&& c.security.auto_lock_timeout_minutes == 30
    &&& c.security.require_confirmation_for_deletion == true
    &&& c.ui.theme@ == "dark"@
    &&& c.ui.refresh_rate_ms == 1000
    &&& c.ui.show_status_bar == true
    &&& c.ui.compact_mode == false
    &&& c.ui.default_date_format@ == "%Y-%m-%d %H:%M:%S"@
    &&& c.network.timeout_seconds == 30
    &&& c.network.max_retries == 3
    &&& c.network.user_agent@ == "Toolbox/1.0"@
    &&& c.network.speed_test_duration_seconds == 10
}

impl Default for AppConfig {
    fn default() -> (r: Self)
        ensures
            is_default_config(r),
    {
        AppConfig {
            logging: LoggingConfig {
                enabled: true,
                level: "info".to_owned(),
                console_output: true,
                file_path: "logs/toolbox.log".to_owned(),
                max_file_size_mb: 10,
                max_files: 5,
            },
            reminder: ReminderConfig {
                check_interval_seconds: 30,
                max_retry_attempts: 3,
                retry_delay_seconds: 300,
                default_reminder_advance_minutes: 15,
                email_timeout_seconds: 30,
            },
            security: SecurityConfig {
                password_min_length: 8,
                encryption_key_rotation_days: 90,
                auto_lock_timeout_minutes: 30,
                require_confirmation_for_deletion: true,
            },
            ui: UiConfig {
                theme: "dark".to_owned(),
                refresh_rate_ms: 1000,
                show_status_bar: true,
                compact_mode: false,
                default_date_format: "%Y-%m-%d %H:%M:%S".to_owned(),
            },
            network: NetworkConfig {
                timeout_seconds: 30,
                max_retries: 3,
                user_agent: "Toolbox/1.0".to_owned(),
                speed_test_duration_seconds: 10,
            },
        }
    }
}

/// The settings are consistent: a known logging level and theme, a
/// usable password length, and a reminder interval that will not hammer
/// the scheduler.
pub open spec fn valid_config(c: AppConfig) -> bool {
    &&& (c.logging.level@ == "debug"@ || c.logging.level@ == "info"@ || c.logging.level@
        == "warning"@ || c.logging.level@ == "error"@)
    &&& (c.ui.theme@ == "dark"@ || c.ui.theme@ == "light"@ || c.ui.theme@ == "auto"@)
    &&& c.security.password_min_length >= 4
    &&& c.reminder.check_interval_seconds >= 10
}

/// Holds the current settings and the path they persist to.
#[derive(Debug)]
pub struct ConfigManager {
    config_path: String,
    config: AppConfig,
}

impl ConfigManager {
    /// The settings currently held (a contract-level accessor).
    pub closed spec fn spec_config(&self) -> AppConfig {
        self.config
    }

    /// The path the settings persist to (a contract-level accessor).
    pub closed spec fn spec_path(&self) -> Seq<char> {
        self.config_path@
    }

    /// A manager holding the default settings for the given path.
    /// Callers with a saved settings file replace the contents through
    /// [`ConfigManager::get_mut`] after reading it.
    pub fn new(config_path: &str) -> (r: Self)
        ensures
            r.spec_path() == config_path@,
            is_default_config(r.spec_config()),
    {
        ConfigManager { config_path: config_path.to_owned(), config: AppConfig::default() }
    }

    /// The current settings.
    pub fn get(&self) -> (r: &AppConfig)
        ensures
            *r == self.spec_config(),
    {
        &self.config
    }

    /// A mutable borrow of the settings; the manager afterwards holds
    /// whatever the caller wrote through it.
    pub fn get_mut(&mut self) -> (r: &mut AppConfig)
        ensures
            *r == old(self).spec_config(),
            final(self).spec_config() == *final(r),
            final(self).spec_path() == old(self).spec_path(),
    {
        &mut self.config
    }

    /// Replaces the settings with the defaults.
    pub fn reset_to_default(&mut self)
        ensures
            is_default_config(final(self).spec_config()),
            final(self).spec_path() == old(self).spec_path(),
    {
        self.config = AppConfig::default();
    }

    /// Replaces the logging switch and level.
    pub fn update_logging(&mut self, enabled: bool, level: &str)
        ensures
            final(self).spec_config().logging.enabled == enabled,
            final(self).spec_config().logging.level@ == level@,
            final(self).spec_config().logging.console_output
                == old(self).spec_config().logging.console_output,
            final(self).spec_config().reminder == old(self).spec_config().reminder,
            final(self).spec_config().security == old(self).spec_config().security,
            final(self).spec_config().ui == old(self).spec_config().ui,
            final(self).spec_config().network == old(self).spec_config().network,
            final(self).spec_path() == old(self).spec_path(),
    {
        self.config.logging.enabled = enabled;
        self.config.logging.level = level.to_owned();
    }

    /// Replaces the reminder check interval.
    pub fn update_reminder_interval(&mut self, seconds: u64)
        ensures
            final(self).spec_config().reminder.check_interval_seconds == seconds,
            final(self).spec_config().logging == old(self).spec_config().logging,
            final(self).spec_config().security == old(self).spec_config().security,
            final(self).spec_config().ui == old(self).spec_config().ui,
            final(self).spec_config().network == old(self).spec_config().network,
            final(self).spec_path() == old(self).spec_path(),
    {
        self.config.reminder.check_interval_seconds = seconds;
    }

    /// Replaces the UI theme.
    pub fn update_ui_theme(&mut self, theme: &str)
        ensures
            final(self).spec_config().ui.theme@ == theme@,
            final(self).spec_config().logging == old(self).spec_config().logging,
            final(self).spec_config().reminder == old(self).spec_config().reminder,
            final(self).spec_config().security == old(self).spec_config().security,
            final(self).spec_config().network == old(self).spec_config().network,
            final(self).spec_path() == old(self).spec_path(),
    {
        self.config.ui.theme = theme.to_owned();
    }

    /// Checks the settings, reporting the first broken rule's text; no
    /// text means the settings pass [`valid_config`].
    pub fn validate(&self) -> (r: Result<(), String>)
        ensures
            r is Ok <==> valid_config(self.spec_config()),
    {
        let level = self.config.logging.level.as_str();
        if !(crate::text::str_eq(level, "debug") || crate::text::str_eq(level, "info")
            || crate::text::str_eq(level, "warning") || crate::text::str_eq(level, "error")) {
            return Err("Invalid logging level".to_owned());
        }
        let theme = self.config.ui.theme.as_str();
        if !(crate::text::str_eq(theme, "dark") || crate::text::str_eq(theme, "light")
            || crate::text::str_eq(theme, "auto")) {
            return Err("Invalid UI theme".to_owned());
        }
        if self.config.security.password_min_length < 4 {
            return Err("Password minimum length too short".to_owned());
        }
        if self.config.reminder.check_interval_seconds < 10 {
            return Err("Reminder check interval too short".to_owned());
        }
        Ok(())
    }

    /// A human-readable summary of the headline settings.
    pub fn get_config_info(&self) -> (r: String)
        ensures
            r@ == "Configuration Info:\n- Config Path: "@ + self.spec_path()
                + "\n- Logging Level: "@ + self.spec_config().logging.level@
                + "\n- Reminder Check Interval: "@ + crate::text::dec_of(
                self.spec_config().reminder.check_interval_seconds as nat,
            ) + "s\n- UI Theme: "@ + self.spec_config().ui.theme@ + "\n- Network Timeout: "@
                + crate::text::dec_of(self.spec_config().network.timeout_seconds as nat)
                + "s\n- Auto-lock Timeout: "@ + crate::text::dec_of(
                self.spec_config().security.auto_lock_timeout_minutes as nat,
            ) + "min"@,
    {
        "Configuration Info:\n- Config Path: ".to_owned().concat(self.config_path.as_str()).concat(
            "\n- Logging Level: ",
        ).concat(self.config.logging.level.as_str()).concat(
            "\n- Reminder Check Interval: ",
        ).concat(
            crate::text::u64_to_string(self.config.reminder.check_interval_seconds).as_str(),
        ).concat("s\n- UI Theme: ").concat(self.config.ui.theme.as_str()).concat(
            "\n- Network Timeout: ",
        ).concat(crate::text::u64_to_string(self.config.network.timeout_seconds).as_str()).concat(
            "s\n- Auto-lock Timeout: ",
        ).concat(
            crate::text::u64_to_string(
                self.config.security.auto_lock_timeout_minutes as u64,
            ).as_str(),
        ).concat("min")
    }
}

} // verus!
