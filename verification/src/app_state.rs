//! The shared state vocabulary of the interactive front end: which menu
//! and input mode are active, how process lists are sorted, and the
//! transient status messages shown to the user.

use vstd::prelude::*;

verus! {

#[derive(Debug, Clone, Copy, PartialEq, Eq, Structural)]
pub enum InputMode {
    Normal,
    Editing,
    Viewing,
    EnterAddress,
    ViewResults,
    SpeedTestRunning,
    AddingTask,
    EditingTask,
    ViewingTasks,
    AddingReminder,
    ConfiguringEmail,
    ConfiguringSms,
}

#[derive(Debug, Clone, Copy, PartialEq, Eq, Structural)]
pub enum MenuItem {
    Main,
    PasswordManager,
    NetworkTools,
    SystemUtilities,
    TaskScheduler,
}

#[derive(Debug, Clone, Copy, PartialEq, Eq, Structural)]
pub enum SystemViewMode {
    Overview,
    CpuDetails,
    MemoryDetails,
    DiskDetails,
    ProcessList,
}

/// A pending confirmation, carrying the process id and name when a kill
/// is awaiting the user's answer.
#[derive(Debug, Clone, PartialEq)]
pub enum ConfirmationDialogue {
    Inactive,
    KillProcess(u32, String),
}

#[derive(Debug, Clone, Copy, PartialEq, Eq, Structural)]
pub enum ProcessSortType {
    Pid,
    Name,
    CpuUsage,
    MemoryUsage,
    Runtime,
}

#[derive(Debug, Clone, Copy, PartialEq, Eq, Structural)]
pub enum StatusMessageType {
    Info,
    Success,
    Warning,
    Error,
}

/// A transient status line: its text, its kind, when it appeared (as
/// milliseconds on the caller's monotonic clock), and how long it
/// should stay visible.
#[derive(Debug, Clone)]
pub struct StatusMessage {
    pub message: String,
    pub message_type: StatusMessageType,
    pub created_at_millis: u64,
    pub duration_millis: u64,
}

/// Builds the transient status message the front end shows for five
/// seconds.
pub fn prepare_status_message(
    message: String,
    message_type: StatusMessageType,
    now_millis: u64,
) -> (r: StatusMessage)
    ensures
        r.message@ == message@,
        r.message_type == message_type,
        r.created_at_millis == now_millis,
        r.duration_millis == 5000,
{
    StatusMessage { message, message_type, created_at_millis: now_millis, duration_millis: 5000 }
}

impl StatusMessage {
    /// The message is past its display window at clock reading `now_millis`.
    pub fn is_expired(&self, now_millis: u64) -> (b: bool)
        ensures
            b == (now_millis >= self.created_at_millis
                && now_millis - self.created_at_millis >= self.duration_millis),
    {
        now_millis >= self.created_at_millis
            && now_millis - self.created_at_millis >= self.duration_millis
    }
}

} // verus!
