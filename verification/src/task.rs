//! The task and reminder data model: a task carries metadata, a status,
//! and an ordered list of reminders, each of which tracks its own
//! delivery state (sent flag, retry count, last attempt, last error).

use vstd::prelude::*;

verus! {

/// A reminder is attempted at most this many times.
pub const MAX_RETRIES: u32 = 3;

/// Minimum gap, in seconds, between two delivery attempts of one reminder.
pub const RETRY_DELAY_SECONDS: i64 = 300;

#[derive(Debug, Clone, Copy, PartialEq, Eq, Structural)]
pub enum TaskPriority {
    Low,
    Medium,
    High,
    Urgent,
}

#[derive(Debug, Clone, Copy, PartialEq, Eq, Structural)]
pub enum TaskStatus {
    Pending,
    InProgress,
    Completed,
    Cancelled,
}

#[derive(Debug, Clone, Copy, PartialEq, Eq, Structural)]
pub enum ReminderType {
    Email,
    Notification,
    Sms,
    Both,
    All,
}

impl Default for TaskPriority {
    fn default() -> (r: Self)
        ensures
            r == TaskPriority::Medium,
    {
        TaskPriority::Medium
    }
}

impl Default for TaskStatus {
    fn default() -> (r: Self)
        ensures
            r == TaskStatus::Pending,
    {
        TaskStatus::Pending
    }
}

impl Default for ReminderType {
    fn default() -> (r: Self)
        ensures
            r == ReminderType::Email,
    {
        ReminderType::Email
    }
}

/// A scheduled trigger attached to a task: a time, a delivery channel,
/// and the bookkeeping of delivery attempts.
#[derive(Debug)]
pub struct Reminder {
    pub reminder_time: i64,
    pub reminder_type: ReminderType,
    pub sent: bool,
    pub retry_count: u32,
    pub last_attempt: Option<i64>,
    pub error_message: Option<String>,
}

/// Mathematical abstraction of a [`Reminder`].
pub ghost struct ReminderModel {
    pub reminder_time: int,
    pub reminder_type: ReminderType,
    pub sent: bool,
    pub retry_count: int,
    pub last_attempt: Option<int>,
    pub error_message: Option<Seq<char>>,
}

impl View for Reminder {
    type V = ReminderModel;

    open spec fn view(&self) -> ReminderModel {
        ReminderModel {
            reminder_time: self.reminder_time as int,
            reminder_type: self.reminder_type,
            sent: self.sent,
            retry_count: self.retry_count as int,
            last_attempt: match self.last_attempt {
                Some(t) => Some(t as int),
                None => None,
            },
            error_message: match self.error_message {
                Some(ref m) => Some(m@),
                None => None,
            },
        }
    }
}

/// A unit of work: metadata, a due date, a status, and the reminders
/// attached to it.
#[derive(Debug)]
pub struct Task {
    pub id: u32,
    pub title: String,
    pub description: String,
    pub due_date: i64,
    pub priority: TaskPriority,
    pub status: TaskStatus,
    pub created_at: i64,
    pub reminders: Vec<Reminder>,
    pub tags: Vec<String>,
}

/// Mathematical abstraction of a [`Task`].
pub ghost struct TaskModel {
    pub id: u32,
    pub title: Seq<char>,
    pub description: Seq<char>,
    pub due_date: int,
    pub priority: TaskPriority,
    pub status: TaskStatus,
    pub created_at: int,
    pub reminders: Seq<ReminderModel>,
    pub tags: Seq<Seq<char>>,
}

impl View for Task {
    type V = TaskModel;

    open spec fn view(&self) -> TaskModel {
        TaskModel {
            id: self.id,
            title: self.title@,
            description: self.description@,
            due_date: self.due_date as int,
            priority: self.priority,
            status: self.status,
            created_at: self.created_at as int,
            reminders: Seq::new(self.reminders@.len(), |i: int| self.reminders@[i]@),
            tags: Seq::new(self.tags@.len(), |i: int| self.tags@[i]@),
        }
    }
}

/// The reminder model's numeric fields fit the machine types a
/// [`Reminder`] holds; every view of a reminder satisfies this.
pub open spec fn reminder_bounded(r: ReminderModel) -> bool {
    &&& i64::MIN as int <= r.reminder_time <= i64::MAX as int
    &&& 0 <= r.retry_count <= u32::MAX as int
    &&& match r.last_attempt {
        Some(t) => i64::MIN as int <= t <= i64::MAX as int,
        None => true,
    }
}

/// The task model's numeric fields fit the machine types a [`Task`]
/// holds; every view of a task satisfies this.
pub open spec fn task_bounded(t: TaskModel) -> bool {
    &&& i64::MIN as int <= t.due_date <= i64::MAX as int
    &&& i64::MIN as int <= t.created_at <= i64::MAX as int
    &&& forall|i: int| 0 <= i < t.reminders.len() ==> reminder_bounded(#[trigger] t.reminders[i])
}

/// Every task of the sequence is bounded, as [`task_bounded`] asks.
pub open spec fn tasks_bounded(ts: Seq<TaskModel>) -> bool {
    forall|i: int| 0 <= i < ts.len() ==> task_bounded(#[trigger] ts[i])
}

/// The model of a reminder created fresh at `time` for channel `rt`:
/// unsent, never attempted, with no recorded error.
pub open spec fn fresh_reminder_model(time: int, rt: ReminderType) -> ReminderModel {
    ReminderModel {
        reminder_time: time,
        reminder_type: rt,
        sent: false,
        retry_count: 0,
        last_attempt: None,
        error_message: None,
    }
}

/// Some reminder of the task is unsent and already due at `now`.
pub open spec fn has_pending_reminder_at(rs: Seq<ReminderModel>, now: int) -> bool {
    exists|i: int| 0 <= i < rs.len() && !rs[i].sent && rs[i].reminder_time <= now
}

/// The task's due date has been reached at time `now`.
pub open spec fn due_at(t: TaskModel, now: int) -> bool {
    t.due_date <= now
}

impl Task {
    /// Builds a fresh task with status `Pending` and no reminders.
    /// `created_at` is read from the system clock.
    pub fn new(
        id: u32,
        title: String,
        description: String,
        due_date: i64,
        priority: TaskPriority,
        tags: Vec<String>,
    ) -> (t: Task)
        ensures
            t.id == id,
            t@.title == title@,
            t@.description == description@,
            t@.due_date == due_date as int,
            t@.priority == priority,
            t@.status == TaskStatus::Pending,
            t@.reminders.len() == 0,
            t@.tags.len() == tags@.len(),
            forall|i: int| 0 <= i < tags@.len() ==> t@.tags[i] == tags@[i]@,
    {
        let now = crate::time::current_timestamp();
        Task {
            id,
            title,
            description,
            due_date,
            priority,
            status: TaskStatus::Pending,
            created_at: now,
            reminders: Vec::new(),
            tags,
        }
    }

    /// Appends a fresh, unsent reminder for the given time and channel.
    pub fn add_reminder(&mut self, reminder_time: i64, reminder_type: ReminderType)
        ensures
            final(self)@ == (TaskModel {
                reminders: old(self)@.reminders.push(
                    fresh_reminder_model(reminder_time as int, reminder_type),
                ),
                ..old(self)@
            }),
    {
        self.reminders.push(Reminder {
            reminder_time,
            reminder_type,
            sent: false,
            retry_count: 0,
            last_attempt: None,
            error_message: None,
        });
        assert(self@.reminders =~= old(self)@.reminders.push(
            fresh_reminder_model(reminder_time as int, reminder_type),
        ));
        assert(self@.tags =~= old(self)@.tags);
    }

    /// Replaces the task's priority.
    pub fn set_priority(&mut self, priority: TaskPriority)
        ensures
            final(self)@ == (TaskModel { priority, ..old(self)@ }),
    {
        self.priority = priority;
        assert(self@.reminders =~= old(self)@.reminders);
        assert(self@.tags =~= old(self)@.tags);
    }

    /// Replaces the task's status.
    pub fn set_status(&mut self, status: TaskStatus)
        ensures
            final(self)@ == (TaskModel { status, ..old(self)@ }),
    {
        self.status = status;
        assert(self@.reminders =~= old(self)@.reminders);
        assert(self@.tags =~= old(self)@.tags);
    }

    /// Adds a tag unless an equal tag is already present, so duplicates
    /// are suppressed.
    pub fn add_tag(&mut self, tag: String)
        ensures
            (exists|i: int| 0 <= i < old(self)@.tags.len() && old(self)@.tags[i] == tag@)
                ==> final(self)@ == old(self)@,
            !(exists|i: int| 0 <= i < old(self)@.tags.len() && old(self)@.tags[i] == tag@)
                ==> final(self)@ == (TaskModel { tags: old(self)@.tags.push(tag@), ..old(self)@ }),
    {
        let mut i: usize = 0;
        while i < self.tags.len()
            invariant
                0 <= i <= self.tags.len(),
                forall|j: int| 0 <= j < i ==> self@.tags[j] != tag@,
            decreases self.tags.len() - i,
        {
            if self.tags[i].eq(&tag) {
                assert(self@.tags[i as int] == tag@);
                return;
            }
            i += 1;
        }
        self.tags.push(tag);
        assert(self@.reminders =~= old(self)@.reminders);
        assert(self@.tags =~= old(self)@.tags.push(tag@));
    }

    /// The task's due date has been reached at time `now`.
    pub fn is_due_at(&self, now: i64) -> (b: bool)
        ensures
            b == due_at(self@, now as int),
    {
        self.due_date <= now
    }

    /// Like [`Task::is_due_at`], for the instant the system clock
    /// returned: the result is the due test at some timestamp the clock
    /// can produce.
    pub fn is_due(&self) -> (b: bool)
        ensures
            exists|now: int|
                i64::MIN <= now <= i64::MAX && b == #[trigger] due_at(self@, now),
    {
        let now = crate::time::current_timestamp();
        let b = self.is_due_at(now);
        proof {
            assert(i64::MIN <= now as int <= i64::MAX && b == due_at(self@, now as int));
        }
        b
    }

    /// Some reminder is unsent and already due at `now`. The store's
    /// [`crate::scheduler::TaskScheduler::get_tasks_with_pending_reminders`]
    /// asks the broader question that ignores the trigger time.
    pub fn has_pending_reminders_at(&self, now: i64) -> (b: bool)
        ensures
            b == has_pending_reminder_at(self@.reminders, now as int),
    {
        let mut i: usize = 0;
        while i < self.reminders.len()
            invariant
                0 <= i <= self.reminders.len(),
                forall|j: int| 0 <= j < i
                    ==> !(!self@.reminders[j].sent && self@.reminders[j].reminder_time <= now as int),
            decreases self.reminders.len() - i,
        {
            let r = &self.reminders[i];
            if !r.sent && r.reminder_time <= now {
                assert(!self@.reminders[i as int].sent
                    && self@.reminders[i as int].reminder_time <= now as int);
                return true;
            }
            i += 1;
        }
        false
    }

    /// Like [`Task::has_pending_reminders_at`], for the instant the
    /// system clock returned: the result is the due-and-unsent test at
    /// some timestamp the clock can produce.
    pub fn has_pending_reminders(&self) -> (b: bool)
        ensures
            exists|now: int|
                i64::MIN <= now <= i64::MAX && b == #[trigger] has_pending_reminder_at(
                    self@.reminders,
                    now,
                ),
    {
        let now = crate::time::current_timestamp();
        let b = self.has_pending_reminders_at(now);
        proof {
            assert(i64::MIN <= now as int <= i64::MAX && b == has_pending_reminder_at(
                self@.reminders,
                now as int,
            ));
        }
        b
    }
}

} // verus!
