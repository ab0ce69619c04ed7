//! The task store: owns the task collection and the monotonic id
//! counter, and offers the CRUD and query operations that the UI and the
//! background reminder loop share.
//!
//! The store keeps its tasks in insertion order and guarantees that ids
//! are unique and strictly below `next_id`, so an id handed out once is
//! never reused.

use vstd::prelude::*;

use crate::task::{Reminder, ReminderType, Task, TaskModel, TaskPriority, TaskStatus};
use crate::text::{contains_sub, lower};

verus! {

/// Email delivery settings; the password is a credential and is never
/// rendered by this crate.
#[derive(Debug)]
pub struct EmailConfig {
    pub email: String,
    pub smtp_server: String,
    pub smtp_port: u16,
    pub username: String,
    pub password: String,
    pub retry_attempts: u32,
    pub retry_delay_seconds: u64,
}

/// Mathematical abstraction of an [`EmailConfig`].
pub ghost struct EmailConfigModel {
    pub email: Seq<char>,
    pub smtp_server: Seq<char>,
    pub smtp_port: u16,
    pub username: Seq<char>,
    pub password: Seq<char>,
    pub retry_attempts: u32,
    pub retry_delay_seconds: u64,
}

impl View for EmailConfig {
    type V = EmailConfigModel;

    open spec fn view(&self) -> EmailConfigModel {
        EmailConfigModel {
            email: self.email@,
            smtp_server: self.smtp_server@,
            smtp_port: self.smtp_port,
            username: self.username@,
            password: self.password@,
            retry_attempts: self.retry_attempts,
            retry_delay_seconds: self.retry_delay_seconds,
        }
    }
}

impl Default for EmailConfig {
    fn default() -> (r: Self)
        ensures
            r@.email.len() == 0,
            r@.smtp_server.len() == 0,
            r@.smtp_port == 587,
            r@.username.len() == 0,
            r@.password.len() == 0,
            r@.retry_attempts == 3,
            r@.retry_delay_seconds == 5,
    {
        EmailConfig {
            email: String::new(),
            smtp_server: String::new(),
            smtp_port: 587,
            username: String::new(),
            password: String::new(),
            retry_attempts: 3,
            retry_delay_seconds: 5,
        }
    }
}

/// SMS delivery settings: the destination phone number and its carrier,
/// used to derive an email-to-SMS gateway address.
#[derive(Debug)]
pub struct SmsConfig {
    pub phone_number: String,
    pub carrier: String,
    pub enabled: bool,
}

/// Mathematical abstraction of an [`SmsConfig`].
pub ghost struct SmsConfigModel {
    pub phone_number: Seq<char>,
    pub carrier: Seq<char>,
    pub enabled: bool,
}

impl View for SmsConfig {
    type V = SmsConfigModel;

    open spec fn view(&self) -> SmsConfigModel {
        SmsConfigModel {
            phone_number: self.phone_number@,
            carrier: self.carrier@,
            enabled: self.enabled,
        }
    }
}

/// A typed failure of a store operation; never fatal to the caller.
#[derive(Debug, Clone, Copy, PartialEq, Eq, Structural)]
pub enum SchedulerError {
    /// No task with the given id is in the store.
    TaskNotFound { id: u32 },
    /// The task exists but has no reminder at the given index.
    ReminderNotFound { id: u32, index: usize },
}

/// Mathematical abstraction of the whole store.
pub ghost struct StoreModel {
    pub tasks: Seq<TaskModel>,
    pub next_id: u32,
    pub file_path: Seq<char>,
    pub email_config: Option<EmailConfigModel>,
    pub sms_config: Option<SmsConfigModel>,
}

/// Ids are unique, all strictly below `next_id`, and `next_id` starts
/// at one.
pub open spec fn store_wf(m: StoreModel) -> bool {
    &&& forall|i: int, j: int|
        0 <= i < j < m.tasks.len() ==> m.tasks[i].id != m.tasks[j].id
    &&& forall|i: int| 0 <= i < m.tasks.len() ==> (#[trigger] m.tasks[i]).id < m.next_id
    &&& m.next_id >= 1
}

/// Some task in the sequence carries the given id.
pub open spec fn contains_task(ts: Seq<TaskModel>, id: u32) -> bool {
    exists|i: int| 0 <= i < ts.len() && ts[i].id == id
}

/// The position of the task with the given id (meaningful only when
/// [`contains_task`] holds and ids are unique).
pub open spec fn task_index(ts: Seq<TaskModel>, id: u32) -> int {
    choose|i: int| 0 <= i < ts.len() && ts[i].id == id
}

/// With unique ids, any position holding `id` is the position that
/// [`task_index`] denotes.
pub proof fn lemma_task_index_unique(ts: Seq<TaskModel>, id: u32, i: int)
    requires
        forall|a: int, b: int| 0 <= a < b < ts.len() ==> ts[a].id != ts[b].id,
        0 <= i < ts.len(),
        ts[i].id == id,
    ensures
        contains_task(ts, id),
        task_index(ts, id) == i,
{
    assert(contains_task(ts, id));
    let j = task_index(ts, id);
    if i < j {
        assert(ts[i].id != ts[j].id);
    } else if j < i {
        assert(ts[j].id != ts[i].id);
    }
}

/// The subsequence of tasks satisfying `p`, in store order.
pub open spec fn filter_tasks(ts: Seq<TaskModel>, p: spec_fn(TaskModel) -> bool) -> Seq<TaskModel>
    decreases ts.len(),
{
    if ts.len() == 0 {
        Seq::empty()
    } else {
        let rest = filter_tasks(ts.drop_last(), p);
        if p(ts.last()) {
            rest.push(ts.last())
        } else {
            rest
        }
    }
}

/// The references in `xs` denote exactly the models in `ms`, in order.
pub open spec fn refs_match(xs: Seq<&Task>, ms: Seq<TaskModel>) -> bool {
    &&& xs.len() == ms.len()
    &&& forall|i: int| 0 <= i < xs.len() ==> xs[i]@ == ms[i]
}

pub open spec fn is_pending(t: TaskModel) -> bool {
    t.status == TaskStatus::Pending
}

/// The tasks already due at `now`, in store order.
pub open spec fn due_filter(ts: Seq<TaskModel>, now: int) -> Seq<TaskModel> {
    filter_tasks(ts, |t: TaskModel| crate::task::due_at(t, now))
}

/// Some reminder of the task still awaits delivery or confirmation,
/// whatever its trigger time.
pub open spec fn has_unsent_reminder(t: TaskModel) -> bool {
    exists|i: int| 0 <= i < t.reminders.len() && !t.reminders[i].sent
}

pub open spec fn has_priority(t: TaskModel, p: TaskPriority) -> bool {
    t.priority == p
}

pub open spec fn has_status(t: TaskModel, s: TaskStatus) -> bool {
    t.status == s
}

/// Case-insensitive (ASCII) match of the query against the task's
/// title, description, or any tag.
pub open spec fn matches_query(t: TaskModel, q: Seq<char>) -> bool {
    ||| contains_sub(lower(t.title), q)
    ||| contains_sub(lower(t.description), q)
    ||| exists|i: int| 0 <= i < t.tags.len() && contains_sub(lower(t.tags[i]), q)
}

/// The task store. Tasks are held in insertion order; ids are assigned
/// from a monotonically increasing counter and never reused.
#[derive(Debug)]
pub struct TaskScheduler {
    tasks: Vec<Task>,
    next_id: u32,
    file_path: String,
    email_config: Option<EmailConfig>,
    sms_config: Option<SmsConfig>,
}

impl View for TaskScheduler {
    type V = StoreModel;

    closed spec fn view(&self) -> StoreModel {
        StoreModel {
            tasks: Seq::new(self.tasks@.len(), |i: int| self.tasks@[i]@),
            next_id: self.next_id,
            file_path: self.file_path@,
            email_config: match self.email_config {
                Some(ref c) => Some(c@),
                None => None,
            },
            sms_config: match self.sms_config {
                Some(ref c) => Some(c@),
                None => None,
            },
        }
    }
}

impl TaskScheduler {
    /// The store invariant: unique ids, all below `next_id`.
    pub open spec fn wf(&self) -> bool {
        store_wf(self@)
    }

    /// An empty store that will persist to `file_path`. Callers that
    /// have a saved copy reconstruct the store through the codec
    /// instead.
    pub fn new(file_path: &str) -> (s: Self)
        ensures
            s.wf(),
            s@.tasks.len() == 0,
            s@.next_id == 1,
            s@.file_path == file_path@,
            s@.email_config is None,
            s@.sms_config is None,
    {
        TaskScheduler {
            tasks: Vec::new(),
            next_id: 1,
            file_path: file_path.to_owned(),
            email_config: None,
            sms_config: None,
        }
    }

    /// Builds a store from parts already validated, as the codec does
    /// after parsing a saved copy.
    pub(crate) fn assemble(
        tasks: Vec<Task>,
        next_id: u32,
        file_path: String,
        email_config: Option<EmailConfig>,
        sms_config: Option<SmsConfig>,
    ) -> (s: Self)
        requires
            forall|i: int, j: int| 0 <= i < j < tasks@.len() ==> tasks@[i]@.id != tasks@[j]@.id,
            forall|i: int| 0 <= i < tasks@.len() ==> (#[trigger] tasks@[i]@).id < next_id,
            next_id >= 1,
        ensures
            s.wf(),
            s@.tasks.len() == tasks@.len(),
            forall|i: int| 0 <= i < tasks@.len() ==> s@.tasks[i] == tasks@[i]@,
            s@.next_id == next_id,
            s@.file_path == file_path@,
            s@.email_config == (match email_config {
                Some(c) => Some(c@),
                None => None::<EmailConfigModel>,
            }),
            s@.sms_config == (match sms_config {
                Some(c) => Some(c@),
                None => None::<SmsConfigModel>,
            }),
    {
        TaskScheduler { tasks, next_id, file_path, email_config, sms_config }
    }

    /// Allocates the next id, adds a fresh `Pending` task under it, and
    /// returns the id. Ids are strictly increasing over the life of the
    /// store, so an id is never reused even after deletions.
    pub fn add_task(
        &mut self,
        title: String,
        description: String,
        due_date: i64,
        priority: TaskPriority,
        tags: Vec<String>,
    ) -> (id: u32)
        requires
            old(self).wf(),
            old(self)@.next_id < u32::MAX,
        ensures
            final(self).wf(),
            id == old(self)@.next_id,
            final(self)@.next_id == old(self)@.next_id + 1,
            add_transition(old(self)@, final(self)@, id),
            final(self)@.file_path == old(self)@.file_path,
            final(self)@.email_config == old(self)@.email_config,
            final(self)@.sms_config == old(self)@.sms_config,
            final(self)@.tasks.len() == old(self)@.tasks.len() + 1,
            forall|i: int| 0 <= i < old(self)@.tasks.len()
                ==> final(self)@.tasks[i] == old(self)@.tasks[i],
            ({
                let t = final(self)@.tasks.last();
                &&& t.id == id
                &&& t.title == title@
                &&& t.description == description@
                &&& t.due_date == due_date as int
                &&& t.priority == priority
                &&& t.status == TaskStatus::Pending
                &&& t.reminders.len() == 0
                &&& t.tags.len() == tags@.len()
                &&& forall|i: int| 0 <= i < tags@.len() ==> t.tags[i] == tags@[i]@
            }),
    {
        let id = self.next_id;
        let task = Task::new(id, title, description, due_date, priority, tags);
        self.tasks.push(task);
        self.next_id = id + 1;
        assert forall|i: int| 0 <= i < old(self)@.tasks.len()
            implies self@.tasks[i] == old(self)@.tasks[i] by {
            assert(self.tasks@[i] == old(self).tasks@[i]);
        }
        id
    }

    /// Replaces the stored task under `id` wholesale with the fields of
    /// `updated_task` (the stored id stays `id`); fails if `id` is
    /// absent.
    pub fn update_task(&mut self, id: u32, updated_task: Task) -> (r: Result<(), SchedulerError>)
        requires
            old(self).wf(),
        ensures
            final(self).wf(),
            r is Ok <==> contains_task(old(self)@.tasks, id),
            r is Err ==> r == Result::<(), SchedulerError>::Err(SchedulerError::TaskNotFound { id })
                && final(self)@ == old(self)@,
            r is Ok ==> {
                let k = task_index(old(self)@.tasks, id);
                final(self)@ == (StoreModel {
                    tasks: old(self)@.tasks.update(k, TaskModel { id, ..updated_task@ }),
                    ..old(self)@
                })
            },
    {
        let n = self.tasks.len();
        let mut i: usize = 0;
        while i < n
            invariant
                old(self).wf(),
                *self == *old(self),
                n == self.tasks@.len(),
                0 <= i <= n,
                forall|j: int| 0 <= j < i ==> old(self)@.tasks[j].id != id,
            decreases n - i,
        {
            if self.tasks[i].id == id {
                proof {
                    lemma_task_index_unique(old(self)@.tasks, id, i as int);
                }
                let mut t = updated_task;
                t.id = id;
                self.tasks.set(i, t);
                proof {
                    assert(self@.tasks =~= old(self)@.tasks.update(
                        i as int,
                        TaskModel { id, ..updated_task@ },
                    ));
                }
                return Ok(());
            }
            i += 1;
        }
        assert(!contains_task(old(self)@.tasks, id));
        Err(SchedulerError::TaskNotFound { id })
    }

    /// Removes the task under `id` together with all its reminders;
    /// fails if `id` is absent. The id counter is untouched, so the id
    /// is never handed out again.
    pub fn delete_task(&mut self, id: u32) -> (r: Result<(), SchedulerError>)
        requires
            old(self).wf(),
        ensures
            final(self).wf(),
            r is Ok <==> contains_task(old(self)@.tasks, id),
            r is Err ==> r == Result::<(), SchedulerError>::Err(SchedulerError::TaskNotFound { id })
                && final(self)@ == old(self)@,
            r is Ok ==> {
                let k = task_index(old(self)@.tasks, id);
                final(self)@ == (StoreModel {
                    tasks: old(self)@.tasks.remove(k),
                    ..old(self)@
                })
            },
    {
        let n = self.tasks.len();
        let mut i: usize = 0;
        while i < n
            invariant
                old(self).wf(),
                *self == *old(self),
                n == self.tasks@.len(),
                0 <= i <= n,
                forall|j: int| 0 <= j < i ==> old(self)@.tasks[j].id != id,
            decreases n - i,
        {
            if self.tasks[i].id == id {
                proof {
                    lemma_task_index_unique(old(self)@.tasks, id, i as int);
                }
                self.tasks.remove(i);
                proof {
                    assert(self@.tasks =~= old(self)@.tasks.remove(i as int));
                }
                return Ok(());
            }
            i += 1;
        }
        assert(!contains_task(old(self)@.tasks, id));
        Err(SchedulerError::TaskNotFound { id })
    }

    /// The task under `id`, if present.
    pub fn get_task(&self, id: u32) -> (r: Option<&Task>)
        requires
            self.wf(),
        ensures
            r is Some <==> contains_task(self@.tasks, id),
            r matches Some(t) ==> t@ == self@.tasks[task_index(self@.tasks, id)],
            r matches Some(t) ==> t@.id == id,
    {
        let n = self.tasks.len();
        let mut i: usize = 0;
        while i < n
            invariant
                self.wf(),
                n == self.tasks@.len(),
                0 <= i <= n,
                forall|j: int| 0 <= j < i ==> self@.tasks[j].id != id,
            decreases n - i,
        {
            if self.tasks[i].id == id {
                proof {
                    lemma_task_index_unique(self@.tasks, id, i as int);
                }
                return Some(&self.tasks[i]);
            }
            i += 1;
        }
        assert(!contains_task(self@.tasks, id));
        None
    }

    /// A mutable borrow of the task under `id`, if present. The store
    /// afterwards holds whatever the caller wrote through the borrow.
    pub fn get_task_mut(&mut self, id: u32) -> (r: Option<&mut Task>)
        requires
            old(self).wf(),
        ensures
            r is Some <==> contains_task(old(self)@.tasks, id),
            r is None ==> final(self)@ == old(self)@,
            r matches Some(t) ==> {
                let k = task_index(old(self)@.tasks, id);
                &&& 0 <= k < old(self)@.tasks.len()
                &&& t@ == old(self)@.tasks[k]
                &&& final(self)@.tasks == old(self)@.tasks.update(k, final(t)@)
                &&& final(self)@.next_id == old(self)@.next_id
                &&& final(self)@.file_path == old(self)@.file_path
                &&& final(self)@.email_config == old(self)@.email_config
                &&& final(self)@.sms_config == old(self)@.sms_config
            },
    {
        let n = self.tasks.len();
        let mut i: usize = 0;
        while i < n
            invariant
                old(self).wf(),
                *self == *old(self),
                n == self.tasks@.len(),
                0 <= i <= n,
                forall|j: int| 0 <= j < i ==> self@.tasks[j].id != id,
            decreases n - i,
        {
            if self.tasks[i].id == id {
                proof {
                    lemma_task_index_unique(self@.tasks, id, i as int);
                }
                let t = &mut self.tasks[i];
                return Some(t);
            }
            i += 1;
        }
        assert(!contains_task(self@.tasks, id));
        None
    }

    /// All tasks, in store (insertion) order.
    pub fn get_all_tasks(&self) -> (r: Vec<&Task>)
        ensures
            refs_match(r@, self@.tasks),
    {
        let n = self.tasks.len();
        let mut out: Vec<&Task> = Vec::new();
        let mut i: usize = 0;
        while i < n
            invariant
                n == self.tasks@.len(),
                0 <= i <= n,
                out@.len() == i,
                forall|j: int| 0 <= j < i ==> out@[j]@ == self@.tasks[j],
            decreases n - i,
        {
            out.push(&self.tasks[i]);
            i += 1;
        }
        out
    }

    /// All tasks, in store order (alias kept for callers that speak of
    /// listing).
    pub fn list_tasks(&self) -> (r: Vec<&Task>)
        ensures
            refs_match(r@, self@.tasks),
    {
        self.get_all_tasks()
    }

    /// The tasks whose status is `Pending`, in store order.
    pub fn get_pending_tasks(&self) -> (r: Vec<&Task>)
        ensures
            refs_match(r@, filter_tasks(self@.tasks, |t: TaskModel| is_pending(t))),
    {
        let n = self.tasks.len();
        let mut out: Vec<&Task> = Vec::new();
        let mut i: usize = 0;
        while i < n
            invariant
                n == self.tasks@.len(),
                0 <= i <= n,
                refs_match(out@, filter_tasks(self@.tasks.subrange(0, i as int),
                    |t: TaskModel| is_pending(t))),
            decreases n - i,
        {
            proof {
                assert(self@.tasks.subrange(0, i + 1).drop_last()
                    =~= self@.tasks.subrange(0, i as int));
            }
            if matches!(self.tasks[i].status, TaskStatus::Pending) {
                out.push(&self.tasks[i]);
            }
            i += 1;
        }
        proof {
            assert(self@.tasks.subrange(0, n as int) =~= self@.tasks);
        }
        out
    }

    /// The tasks already due at `now`, in store order.
    pub fn get_due_tasks_at(&self, now: i64) -> (r: Vec<&Task>)
        ensures
            refs_match(r@, due_filter(self@.tasks, now as int)),
    {
        let n = self.tasks.len();
        let mut out: Vec<&Task> = Vec::new();
        let mut i: usize = 0;
        while i < n
            invariant
                n == self.tasks@.len(),
                0 <= i <= n,
                refs_match(out@, due_filter(self@.tasks.subrange(0, i as int), now as int)),
            decreases n - i,
        {
            proof {
                assert(self@.tasks.subrange(0, i + 1).drop_last()
                    =~= self@.tasks.subrange(0, i as int));
            }
            if self.tasks[i].is_due_at(now) {
                out.push(&self.tasks[i]);
            }
            i += 1;
        }
        proof {
            assert(self@.tasks.subrange(0, n as int) =~= self@.tasks);
        }
        out
    }

    /// Like [`TaskScheduler::get_due_tasks_at`], for the instant the
    /// system clock returned: the result is the due filter at some
    /// timestamp the clock can produce.
    pub fn get_due_tasks(&self) -> (r: Vec<&Task>)
        ensures
            exists|now: int|
                i64::MIN <= now <= i64::MAX && refs_match(
                    r@,
                    #[trigger] due_filter(self@.tasks, now),
                ),
    {
        let now = crate::time::current_timestamp();
        let r = self.get_due_tasks_at(now);
        proof {
            assert(i64::MIN <= now as int <= i64::MAX && refs_match(
                r@,
                due_filter(self@.tasks, now as int),
            ));
        }
        r
    }

    /// The tasks that still carry an undelivered reminder, in store
    /// order. A reminder counts as soon as it is unsent, whatever its
    /// trigger time; the narrower due-now question is
    /// [`Task::has_pending_reminders_at`].
    pub fn get_tasks_with_pending_reminders(&self) -> (r: Vec<&Task>)
        ensures
            refs_match(r@, filter_tasks(self@.tasks, |t: TaskModel| has_unsent_reminder(t))),
    {
        let n = self.tasks.len();
        let mut out: Vec<&Task> = Vec::new();
        let mut i: usize = 0;
        while i < n
            invariant
                n == self.tasks@.len(),
                0 <= i <= n,
                refs_match(out@, filter_tasks(self@.tasks.subrange(0, i as int),
                    |t: TaskModel| has_unsent_reminder(t))),
            decreases n - i,
        {
            proof {
                assert(self@.tasks.subrange(0, i + 1).drop_last()
                    =~= self@.tasks.subrange(0, i as int));
            }
            if Self::task_has_unsent(&self.tasks[i]) {
                out.push(&self.tasks[i]);
            }
            i += 1;
        }
        proof {
            assert(self@.tasks.subrange(0, n as int) =~= self@.tasks);
        }
        out
    }

    /// Whether one task carries an undelivered reminder.
    fn task_has_unsent(task: &Task) -> (b: bool)
        ensures
            b == has_unsent_reminder(task@),
    {
        let n = task.reminders.len();
        let mut i: usize = 0;
        while i < n
            invariant
                n == task.reminders@.len(),
                0 <= i <= n,
                forall|j: int| 0 <= j < i ==> task@.reminders[j].sent,
            decreases n - i,
        {
            if !task.reminders[i].sent {
                assert(!task@.reminders[i as int].sent);
                return true;
            }
            i += 1;
        }
        false
    }

    /// The tasks with the given priority, in store order.
    pub fn get_tasks_by_priority(&self, priority: TaskPriority) -> (r: Vec<&Task>)
        ensures
            refs_match(r@, filter_tasks(self@.tasks, |t: TaskModel| has_priority(t, priority))),
    {
        let n = self.tasks.len();
        let mut out: Vec<&Task> = Vec::new();
        let mut i: usize = 0;
        while i < n
            invariant
                n == self.tasks@.len(),
                0 <= i <= n,
                refs_match(out@, filter_tasks(self@.tasks.subrange(0, i as int),
                    |t: TaskModel| has_priority(t, priority))),
            decreases n - i,
        {
            proof {
                assert(self@.tasks.subrange(0, i + 1).drop_last()
                    =~= self@.tasks.subrange(0, i as int));
            }
            if self.tasks[i].priority == priority {
                out.push(&self.tasks[i]);
            }
            i += 1;
        }
        proof {
            assert(self@.tasks.subrange(0, n as int) =~= self@.tasks);
        }
        out
    }

    /// The tasks with the given status, in store order.
    pub fn get_tasks_by_status(&self, status: TaskStatus) -> (r: Vec<&Task>)
        ensures
            refs_match(r@, filter_tasks(self@.tasks, |t: TaskModel| has_status(t, status))),
    {
        let n = self.tasks.len();
        let mut out: Vec<&Task> = Vec::new();
        let mut i: usize = 0;
        while i < n
            invariant
                n == self.tasks@.len(),
                0 <= i <= n,
                refs_match(out@, filter_tasks(self@.tasks.subrange(0, i as int),
                    |t: TaskModel| has_status(t, status))),
            decreases n - i,
        {
            proof {
                assert(self@.tasks.subrange(0, i + 1).drop_last()
                    =~= self@.tasks.subrange(0, i as int));
            }
            if self.tasks[i].status == status {
                out.push(&self.tasks[i]);
            }
            i += 1;
        }
        proof {
            assert(self@.tasks.subrange(0, n as int) =~= self@.tasks);
        }
        out
    }

    /// The tasks whose title, description, or a tag contains the query,
    /// compared case-insensitively over ASCII letters, in store order.
    pub fn search_tasks(&self, query: &str) -> (r: Vec<&Task>)
        ensures
            refs_match(r@, filter_tasks(self@.tasks, |t: TaskModel| matches_query(t, lower(query@)))),
    {
        let q = crate::text::to_lowercase(query);
        let n = self.tasks.len();
        let mut out: Vec<&Task> = Vec::new();
        let mut i: usize = 0;
        while i < n
            invariant
                q@ == lower(query@),
                n == self.tasks@.len(),
                0 <= i <= n,
                refs_match(out@, filter_tasks(self@.tasks.subrange(0, i as int),
                    |t: TaskModel| matches_query(t, lower(query@)))),
            decreases n - i,
        {
            proof {
                assert(self@.tasks.subrange(0, i + 1).drop_last()
                    =~= self@.tasks.subrange(0, i as int));
            }
            if Self::task_matches(&self.tasks[i], q.as_str()) {
                out.push(&self.tasks[i]);
            }
            i += 1;
        }
        proof {
            assert(self@.tasks.subrange(0, n as int) =~= self@.tasks);
        }
        out
    }

    /// Whether one task matches an already lower-cased query.
    fn task_matches(task: &Task, q: &str) -> (b: bool)
        ensures
            b == matches_query(task@, q@),
    {
        let lt = crate::text::to_lowercase(task.title.as_str());
        if crate::text::str_contains(lt.as_str(), q) {
            return true;
        }
        let ld = crate::text::to_lowercase(task.description.as_str());
        if crate::text::str_contains(ld.as_str(), q) {
            return true;
        }
        let n = task.tags.len();
        let mut i: usize = 0;
        while i < n
            invariant
                n == task.tags@.len(),
                0 <= i <= n,
                forall|j: int| 0 <= j < i ==> !contains_sub(lower(task@.tags[j]), q@),
            decreases n - i,
        {
            let ltag = crate::text::to_lowercase(task.tags[i].as_str());
            if crate::text::str_contains(ltag.as_str(), q) {
                assert(contains_sub(lower(task@.tags[i as int]), q@));
                return true;
            }
            i += 1;
        }
        assert(!matches_query(task@, q@));
        false
    }

    /// Appends a fresh reminder to the task under `task_id`; fails if
    /// the id is absent.
    pub fn add_reminder_to_task(
        &mut self,
        task_id: u32,
        reminder_time: i64,
        reminder_type: ReminderType,
    ) -> (r: Result<(), SchedulerError>)
        requires
            old(self).wf(),
        ensures
            final(self).wf(),
            r is Ok <==> contains_task(old(self)@.tasks, task_id),
            r is Err ==> r == Result::<(), SchedulerError>::Err(
                SchedulerError::TaskNotFound { id: task_id },
            ) && final(self)@ == old(self)@,
            r is Ok ==> {
                let k = task_index(old(self)@.tasks, task_id);
                let t = old(self)@.tasks[k];
                final(self)@ == (StoreModel {
                    tasks: old(self)@.tasks.update(k, TaskModel {
                        reminders: t.reminders.push(crate::task::fresh_reminder_model(
                            reminder_time as int,
                            reminder_type,
                        )),
                        ..t
                    }),
                    ..old(self)@
                })
            },
    {
        match self.get_task_mut(task_id) {
            Some(t) => {
                t.add_reminder(reminder_time, reminder_type);
                Ok(())
            },
            None => Err(SchedulerError::TaskNotFound { id: task_id }),
        }
    }

    /// Marks the reminder at `reminder_index` of task `task_id` as
    /// delivered and clears its recorded error; fails if the task or the
    /// index is absent.
    pub fn mark_reminder_as_sent(&mut self, task_id: u32, reminder_index: usize) -> (r: Result<
        (),
        SchedulerError,
    >)
        requires
            old(self).wf(),
        ensures
            final(self).wf(),
            r is Ok <==> (contains_task(old(self)@.tasks, task_id)
                && reminder_index < old(self)@.tasks[task_index(old(self)@.tasks, task_id)]
                    .reminders.len()),
            r is Err ==> final(self)@ == old(self)@,
            !contains_task(old(self)@.tasks, task_id)
                ==> r == Result::<(), SchedulerError>::Err(
                    SchedulerError::TaskNotFound { id: task_id },
                ),
            (contains_task(old(self)@.tasks, task_id)
                && reminder_index >= old(self)@.tasks[task_index(old(self)@.tasks, task_id)]
                    .reminders.len())
                ==> r == Result::<(), SchedulerError>::Err(
                    SchedulerError::ReminderNotFound { id: task_id, index: reminder_index },
                ),
            r is Ok ==> {
                let k = task_index(old(self)@.tasks, task_id);
                let t = old(self)@.tasks[k];
                let rm = t.reminders[reminder_index as int];
                final(self)@ == (StoreModel {
                    tasks: old(self)@.tasks.update(k, TaskModel {
                        reminders: t.reminders.update(
                            reminder_index as int,
                            crate::task::ReminderModel { sent: true, error_message: None, ..rm },
                        ),
                        ..t
                    }),
                    ..old(self)@
                })
            },
    {
        match self.get_task_mut(task_id) {
            Some(t) => {
                let ghost k = task_index(old(self)@.tasks, task_id);
                let ghost t0 = old(self)@.tasks[k];
                if reminder_index < t.reminders.len() {
                    let old_r = &t.reminders[reminder_index];
                    let updated = Reminder {
                        reminder_time: old_r.reminder_time,
                        reminder_type: old_r.reminder_type,
                        sent: true,
                        retry_count: old_r.retry_count,
                        last_attempt: old_r.last_attempt,
                        error_message: None,
                    };
                    t.reminders.set(reminder_index, updated);
                    proof {
                        assert(t@.reminders =~= t0.reminders.update(
                            reminder_index as int,
                            crate::task::ReminderModel {
                                sent: true,
                                error_message: None,
                                ..t0.reminders[reminder_index as int]
                            },
                        ));
                    }
                    Ok(())
                } else {
                    proof {
                        assert(old(self)@.tasks.update(k, t@) =~= old(self)@.tasks);
                    }
                    Err(SchedulerError::ReminderNotFound { id: task_id, index: reminder_index })
                }
            },
            None => Err(SchedulerError::TaskNotFound { id: task_id }),
        }
    }

    /// Records a delivery failure in the reminder at `reminder_index` of
    /// task `task_id`, leaving its sent flag and retry count as they
    /// are; fails if the task or the index is absent.
    pub fn record_reminder_error(
        &mut self,
        task_id: u32,
        reminder_index: usize,
        message: String,
    ) -> (r: Result<(), SchedulerError>)
        requires
            old(self).wf(),
        ensures
            final(self).wf(),
            r is Ok <==> (contains_task(old(self)@.tasks, task_id)
                && reminder_index < old(self)@.tasks[task_index(old(self)@.tasks, task_id)]
                    .reminders.len()),
            r is Err ==> final(self)@ == old(self)@,
            r is Ok ==> {
                let k = task_index(old(self)@.tasks, task_id);
                let t = old(self)@.tasks[k];
                let rm = t.reminders[reminder_index as int];
                final(self)@ == (StoreModel {
                    tasks: old(self)@.tasks.update(k, TaskModel {
                        reminders: t.reminders.update(
                            reminder_index as int,
                            crate::task::ReminderModel {
                                error_message: Some(message@),
                                ..rm
                            },
                        ),
                        ..t
                    }),
                    ..old(self)@
                })
            },
    {
        match self.get_task_mut(task_id) {
            Some(t) => {
                let ghost k = task_index(old(self)@.tasks, task_id);
                let ghost t0 = old(self)@.tasks[k];
                if reminder_index < t.reminders.len() {
                    let old_r = &t.reminders[reminder_index];
                    let updated = Reminder {
                        reminder_time: old_r.reminder_time,
                        reminder_type: old_r.reminder_type,
                        sent: old_r.sent,
                        retry_count: old_r.retry_count,
                        last_attempt: old_r.last_attempt,
                        error_message: Some(message),
                    };
                    t.reminders.set(reminder_index, updated);
                    proof {
                        assert(t@.reminders =~= t0.reminders.update(
                            reminder_index as int,
                            crate::task::ReminderModel {
                                error_message: Some(message@),
                                ..t0.reminders[reminder_index as int]
                            },
                        ));
                    }
                    Ok(())
                } else {
                    proof {
                        assert(old(self)@.tasks.update(k, t@) =~= old(self)@.tasks);
                    }
                    Err(SchedulerError::ReminderNotFound { id: task_id, index: reminder_index })
                }
            },
            None => Err(SchedulerError::TaskNotFound { id: task_id }),
        }
    }

    /// Replaces the email delivery settings.
    pub fn set_email_config(&mut self, config: EmailConfig)
        ensures
            final(self)@ == (StoreModel { email_config: Some(config@), ..old(self)@ }),
    {
        self.email_config = Some(config);
        proof {
            assert(final(self)@.tasks =~= old(self)@.tasks);
        }
    }

    /// Replaces the SMS delivery settings.
    pub fn set_sms_config(&mut self, config: SmsConfig)
        ensures
            final(self)@ == (StoreModel { sms_config: Some(config@), ..old(self)@ }),
    {
        self.sms_config = Some(config);
        proof {
            assert(final(self)@.tasks =~= old(self)@.tasks);
        }
    }

    /// The current email settings, if any.
    pub fn email_config(&self) -> (r: Option<&EmailConfig>)
        ensures
            r is Some <==> self@.email_config is Some,
            r matches Some(c) ==> self@.email_config == Some(c@),
    {
        self.email_config.as_ref()
    }

    /// The current SMS settings, if any.
    pub fn sms_config(&self) -> (r: Option<&SmsConfig>)
        ensures
            r is Some <==> self@.sms_config is Some,
            r matches Some(c) ==> self@.sms_config == Some(c@),
    {
        self.sms_config.as_ref()
    }

    /// The id the next added task will receive.
    pub fn next_id(&self) -> (r: u32)
        ensures
            r == self@.next_id,
    {
        self.next_id
    }

    /// The path this store persists to.
    pub fn file_path(&self) -> (r: &str)
        ensures
            r@ == self@.file_path,
    {
        self.file_path.as_str()
    }
}

/// The email settings carry the fields a send needs: an address, a
/// server, and a user name.
pub open spec fn email_config_complete(c: EmailConfigModel) -> bool {
    c.email.len() > 0 && c.smtp_server.len() > 0 && c.username.len() > 0
}

/// The store has complete email settings.
pub open spec fn email_ready(m: StoreModel) -> bool {
    match m.email_config {
        Some(c) => email_config_complete(c),
        None => false,
    }
}

/// The store has SMS settings and they are enabled.
pub open spec fn sms_enabled(m: StoreModel) -> bool {
    match m.sms_config {
        Some(c) => c.enabled,
        None => false,
    }
}

/// The gateway address the store's SMS settings resolve to, if any.
pub open spec fn sms_gateway_of(m: StoreModel) -> Option<Seq<char>> {
    match m.sms_config {
        Some(c) => crate::delivery::gateway_email(c.phone_number, c.carrier),
        None => None,
    }
}

/// The carrier named in the store's SMS settings.
pub open spec fn sms_carrier_of(m: StoreModel) -> Seq<char> {
    match m.sms_config {
        Some(c) => c.carrier,
        None => Seq::empty(),
    }
}

/// The text of the typed not-found failure, as the send operations
/// surface it.
pub open spec fn not_found_msg(id: u32) -> Seq<char> {
    "Task with ID "@ + crate::text::dec_of(id as nat) + " not found"@
}

/// Renders [`not_found_msg`].
fn not_found_text(id: u32) -> (r: String)
    ensures
        r@ == not_found_msg(id),
{
    "Task with ID ".to_owned().concat(crate::text::u32_to_string(id).as_str()).concat(" not found")
}

/// One scan of the whole store at time `now`: every reminder updated by
/// the attempt bookkeeping, everything else untouched, and the output
/// listing exactly the delivery legs of the eligible reminders, in
/// store order.
pub open spec fn scan_transition(
    pre: StoreModel,
    post: StoreModel,
    out: Seq<(u32, String, ReminderType, Option<usize>)>,
    now: int,
) -> bool {
    &&& post.next_id == pre.next_id
    &&& post.file_path == pre.file_path
    &&& post.email_config == pre.email_config
    &&& post.sms_config == pre.sms_config
    &&& post.tasks.len() == pre.tasks.len()
    &&& forall|i: int| 0 <= i < pre.tasks.len()
        ==> post.tasks[i] == crate::trigger::task_after_scan(pre.tasks[i], now)
    &&& crate::trigger::trig_match_seq(out, crate::trigger::store_emits(pre.tasks, now))
}

/// The visible effect of one `add_task` call on the id counter: the
/// returned id is the counter's old value, and the counter advances by
/// one.
pub open spec fn add_transition(pre: StoreModel, post: StoreModel, id: u32) -> bool {
    id == pre.next_id && post.next_id == pre.next_id + 1
}

/// One step of any store operation never decreases the id counter;
/// update, delete, the scan, and the reminder updates keep it equal,
/// and `add_task` increases it by one, as their contracts state.
pub open spec fn op_keeps_counter(pre: StoreModel, post: StoreModel) -> bool {
    post.next_id >= pre.next_id
}

/// Over a run of operations that never decrease the counter, the
/// counter is monotone.
proof fn lemma_counter_monotone(states: Seq<StoreModel>, i: int, j: int)
    requires
        forall|k: int| 0 <= k < states.len() - 1
            ==> op_keeps_counter(#[trigger] states[k], states[k + 1]),
        0 <= i <= j < states.len(),
    ensures
        states[i].next_id <= states[j].next_id,
    decreases j - i,
{
    if i < j {
        lemma_counter_monotone(states, i, j - 1);
        assert(op_keeps_counter(states[j - 1], states[j]));
    }
}

/// Law: id uniqueness. In any run of store operations — adds, updates,
/// deletions, scans — the ids returned by two add operations, an
/// earlier and a later one, are strictly increasing, so an id is never
/// handed out twice, deletions notwithstanding.
pub proof fn lemma_add_ids_strictly_increase(
    states: Seq<StoreModel>,
    i: int,
    j: int,
    id_i: u32,
    id_j: u32,
)
    requires
        forall|k: int| 0 <= k < states.len() - 1
            ==> op_keeps_counter(#[trigger] states[k], states[k + 1]),
        0 <= i < j < states.len() - 1,
        add_transition(states[i], states[i + 1], id_i),
        add_transition(states[j], states[j + 1], id_j),
    ensures
        id_i < id_j,
{
    lemma_counter_monotone(states, i + 1, j);
}

/// Law: the id the store would hand out next is never already present,
/// so a fresh add cannot collide with a stored task.
pub proof fn lemma_next_id_fresh(m: StoreModel)
    requires
        store_wf(m),
    ensures
        !contains_task(m.tasks, m.next_id),
{
}

impl TaskScheduler {
    /// The trigger scan at an explicit time `now`: marks every eligible
    /// reminder as attempted (a pure notification is sent on the spot),
    /// dispatches the desktop notifications, and returns one entry per
    /// delivery leg, in store order. Deferred legs (email, SMS) carry
    /// the reminder's index for later confirmation.
    pub fn check_reminders_at(&mut self, now: i64) -> (r: Vec<
        (u32, String, ReminderType, Option<usize>),
    >)
        requires
            old(self).wf(),
        ensures
            final(self).wf(),
            scan_transition(old(self)@, final(self)@, r@, now as int),
    {
        let n = self.tasks.len();
        let mut new_tasks: Vec<Task> = Vec::new();
        let mut trig: Vec<(u32, String, ReminderType, Option<usize>)> = Vec::new();
        let mut notes: Vec<(String, String)> = Vec::new();
        let mut i: usize = 0;
        while i < n
            invariant
                old(self).wf(),
                *self == *old(self),
                n == self.tasks@.len(),
                0 <= i <= n,
                new_tasks@.len() == i,
                forall|j: int| 0 <= j < i
                    ==> new_tasks@[j]@ == crate::trigger::task_after_scan(
                        self@.tasks[j],
                        now as int,
                    ),
                crate::trigger::trig_match_seq(
                    trig@,
                    crate::trigger::store_emits_upto(self@.tasks, now as int, i as int),
                ),
            decreases n - i,
        {
            let (new_task, mut tpart, mut npart) = crate::trigger::scan_task(&self.tasks[i], now);
            proof {
                crate::trigger::lemma_trig_match_concat(
                    trig@,
                    crate::trigger::store_emits_upto(self@.tasks, now as int, i as int),
                    tpart@,
                    crate::trigger::task_emits(self@.tasks[i as int], now as int),
                );
            }
            new_tasks.push(new_task);
            trig.append(&mut tpart);
            notes.append(&mut npart);
            i += 1;
        }
        self.tasks = new_tasks;
        let m = notes.len();
        let mut k: usize = 0;
        while k < m
            invariant
                m == notes.len(),
                0 <= k <= m,
            decreases m - k,
        {
            let summary = "Task Reminder: ".to_owned().concat(notes[k].0.as_str());
            let _ = crate::delivery::show_desktop_notification(
                summary.as_str(),
                notes[k].1.as_str(),
            );
            k += 1;
        }
        trig
    }

    /// The trigger scan at the current wall-clock time: behaves as
    /// [`TaskScheduler::check_reminders_at`] for the instant the clock
    /// returned. The instant is some timestamp the clock can produce,
    /// so a scan that ignored every reminder would not meet this.
    pub fn check_reminders(&mut self) -> (r: Vec<(u32, String, ReminderType, Option<usize>)>)
        requires
            old(self).wf(),
        ensures
            final(self).wf(),
            exists|now: int|
                i64::MIN <= now <= i64::MAX && #[trigger] scan_transition(
                    old(self)@,
                    final(self)@,
                    r@,
                    now,
                ),
    {
        let now = crate::time::current_timestamp();
        let out = self.check_reminders_at(now);
        proof {
            assert(i64::MIN <= now as int <= i64::MAX && scan_transition(
                old(self)@,
                self@,
                out@,
                now as int,
            ));
        }
        out
    }

    /// The email-to-SMS gateway address for a phone number and carrier,
    /// as [`crate::delivery::gateway_email`] describes: the digits of
    /// the number at the carrier's gateway domain, or nothing for an
    /// unknown carrier.
    pub fn get_sms_gateway_email(&self, phone_number: &str, carrier: &str) -> (r: Option<String>)
        ensures
            r is Some <==> crate::delivery::gateway_email(phone_number@, carrier@) is Some,
            r matches Some(g) ==> crate::delivery::gateway_email(phone_number@, carrier@)
                == Some(g@),
    {
        crate::delivery::gateway_address(phone_number, carrier)
    }

    /// Prepares the email describing the task: every plain value one
    /// SMTP delivery needs, so a caller can release the store lock
    /// before the network call. Fails with the exact error text below
    /// when the task is absent or the email settings are missing or
    /// incomplete; the rendered due date comes from the machine's time
    /// zone and is the one unpinned part of the body.
    pub fn prepare_reminder_email(&self, task_id: u32) -> (r: Result<
        crate::delivery::OutboundEmail,
        String,
    >)
        requires
            self.wf(),
        ensures
            !contains_task(self@.tasks, task_id) ==> (r matches Err(e)
                && e@ == not_found_msg(task_id)),
            contains_task(self@.tasks, task_id) && self@.email_config is None ==> (r matches Err(e)
                && e@ == "Email configuration not set"@),
            contains_task(self@.tasks, task_id) && self@.email_config is Some && !email_ready(self@)
                ==> (r matches Err(e)
                && e@ == "Email configuration is incomplete. Please check your settings."@),
            contains_task(self@.tasks, task_id) && email_ready(self@) ==> r is Ok,
            r is Ok ==> contains_task(self@.tasks, task_id) && email_ready(self@),
            r matches Ok(m) ==> (match self@.email_config {
                Some(c) => {
                    let t = self@.tasks[task_index(self@.tasks, task_id)];
                    &&& m.from@ == "Task Scheduler"@ + " <"@ + c.email + ">"@
                    &&& m.to@ == c.email
                    &&& m.subject@ == "Reminder: "@ + t.title
                    &&& (exists|due_text: Seq<char>|
                        m.body@ == #[trigger] crate::delivery::reminder_body_text(
                            t.title,
                            t.description,
                            due_text,
                            t.priority,
                        ))
                    &&& m.smtp_server@ == c.smtp_server
                    &&& m.smtp_port == c.smtp_port
                    &&& m.username@ == c.username
                    &&& m.password@ == c.password
                },
                None => false,
            }),
    {
        let task = match self.get_task(task_id) {
            Some(t) => t,
            None => {
                return Err(not_found_text(task_id));
            },
        };
        let config = match self.email_config.as_ref() {
            Some(c) => c,
            None => {
                return Err("Email configuration not set".to_owned());
            },
        };
        if config.email.as_str().is_empty() || config.smtp_server.as_str().is_empty()
            || config.username.as_str().is_empty() {
            return Err("Email configuration is incomplete. Please check your settings.".to_owned());
        }
        let due_text = crate::time::format_timestamp(task.due_date);
        let (subject, body) = crate::delivery::compose_reminder_email(
            task.title.as_str(),
            task.description.as_str(),
            due_text.as_str(),
            task.priority,
        );
        let mail = crate::delivery::OutboundEmail {
            from: crate::delivery::compose_sender("Task Scheduler", config.email.as_str()),
            to: config.email.clone(),
            subject,
            body,
            smtp_server: config.smtp_server.clone(),
            smtp_port: config.smtp_port,
            username: config.username.clone(),
            password: config.password.clone(),
        };
        proof {
            let t = self@.tasks[task_index(self@.tasks, task_id)];
            assert(mail.body@ == crate::delivery::reminder_body_text(
                t.title,
                t.description,
                due_text@,
                t.priority,
            ));
        }
        Ok(mail)
    }

    /// Composes and sends an email describing the task, as
    /// [`TaskScheduler::prepare_reminder_email`] prepares it. Fails with
    /// the exact error text below when the task is absent or the email
    /// settings are missing or incomplete; otherwise the outcome is the
    /// transport's. The reminder is not marked sent here: that is the
    /// dispatcher's step after a confirmed success.
    pub fn send_reminder_email(&self, task_id: u32) -> (r: Result<(), String>)
        requires
            self.wf(),
        ensures
            !contains_task(self@.tasks, task_id) ==> (r matches Err(e)
                && e@ == not_found_msg(task_id)),
            contains_task(self@.tasks, task_id) && self@.email_config is None ==> (r matches Err(e)
                && e@ == "Email configuration not set"@),
            contains_task(self@.tasks, task_id) && self@.email_config is Some && !email_ready(self@)
                ==> (r matches Err(e)
                && e@ == "Email configuration is incomplete. Please check your settings."@),
            r is Ok ==> contains_task(self@.tasks, task_id) && email_ready(self@),
    {
        match self.prepare_reminder_email(task_id) {
            Ok(mail) => crate::delivery::send_outbound_email(mail),
            Err(e) => Err(e),
        }
    }

    /// Prepares `message` as a text through the carrier's email-to-SMS
    /// gateway, clipped to 160 characters: every plain value one SMTP
    /// delivery needs, so a caller can release the store lock before
    /// the network call. The error cases match
    /// [`TaskScheduler::send_sms_reminder`].
    pub fn prepare_sms_reminder(&self, message: &str) -> (r: Result<
        crate::delivery::OutboundEmail,
        String,
    >)
        ensures
            self@.sms_config is None ==> (r matches Err(e) && e@ == "SMS configuration not set"@),
            self@.sms_config is Some && !sms_enabled(self@) ==> (r matches Err(e)
                && e@ == "SMS is disabled in configuration"@),
            sms_enabled(self@) && self@.email_config is None ==> (r matches Err(e)
                && e@ == "Email configuration required for SMS (uses email-to-SMS gateway)"@),
            sms_enabled(self@) && self@.email_config is Some && sms_gateway_of(self@) is None
                ==> (r matches Err(e) && e@ == "Unsupported carrier: "@ + sms_carrier_of(self@)),
            sms_enabled(self@) && self@.email_config is Some && sms_gateway_of(self@) is Some
                ==> r is Ok,
            r is Ok ==> sms_enabled(self@) && self@.email_config is Some
                && sms_gateway_of(self@) is Some,
            r matches Ok(m) ==> (match self@.email_config {
                Some(c) => {
                    &&& sms_gateway_of(self@) == Some(m.to@)
                    &&& m.from@ == "Task Reminder"@ + " <"@ + c.email + ">"@
                    &&& m.subject@.len() == 0
                    &&& m.body@ == crate::text::clipped(message@, 160)
                    &&& m.smtp_server@ == c.smtp_server
                    &&& m.smtp_port == c.smtp_port
                    &&& m.username@ == c.username
                    &&& m.password@ == c.password
                },
                None => false,
            }),
    {
        let sms = match self.sms_config.as_ref() {
            Some(c) => c,
            None => {
                return Err("SMS configuration not set".to_owned());
            },
        };
        if !sms.enabled {
            return Err("SMS is disabled in configuration".to_owned());
        }
        let config = match self.email_config.as_ref() {
            Some(c) => c,
            None => {
                return Err(
                    "Email configuration required for SMS (uses email-to-SMS gateway)".to_owned(),
                );
            },
        };
        let gateway = match crate::delivery::gateway_address(
            sms.phone_number.as_str(),
            sms.carrier.as_str(),
        ) {
            Some(g) => g,
            None => {
                return Err("Unsupported carrier: ".to_owned().concat(sms.carrier.as_str()));
            },
        };
        let mail = crate::delivery::OutboundEmail {
            from: crate::delivery::compose_sender("Task Reminder", config.email.as_str()),
            to: gateway,
            subject: String::new(),
            body: crate::text::clip_message(message, 160),
            smtp_server: config.smtp_server.clone(),
            smtp_port: config.smtp_port,
            username: config.username.clone(),
            password: config.password.clone(),
        };
        Ok(mail)
    }

    /// Sends `message` as a text through the carrier's email-to-SMS
    /// gateway, clipped to 160 characters, as
    /// [`TaskScheduler::prepare_sms_reminder`] prepares it. Requires SMS
    /// settings that are enabled, email settings for the shared
    /// transport, and a known carrier, each failing with the exact error
    /// text below; otherwise the outcome is the transport's.
    pub fn send_sms_reminder(&self, _task_id: u32, message: &str) -> (r: Result<(), String>)
        ensures
            self@.sms_config is None ==> (r matches Err(e) && e@ == "SMS configuration not set"@),
            self@.sms_config is Some && !sms_enabled(self@) ==> (r matches Err(e)
                && e@ == "SMS is disabled in configuration"@),
            sms_enabled(self@) && self@.email_config is None ==> (r matches Err(e)
                && e@ == "Email configuration required for SMS (uses email-to-SMS gateway)"@),
            sms_enabled(self@) && self@.email_config is Some && sms_gateway_of(self@) is None
                ==> (r matches Err(e) && e@ == "Unsupported carrier: "@ + sms_carrier_of(self@)),
            r is Ok ==> sms_enabled(self@) && self@.email_config is Some
                && sms_gateway_of(self@) is Some,
    {
        match self.prepare_sms_reminder(message) {
            Ok(mail) => crate::delivery::send_outbound_email(mail),
            Err(e) => Err(e),
        }
    }

    /// Renders the store's persisted document: the task list and the id
    /// counter, in the codec's canonical form. Writing it to disk is the
    /// caller's step; the codec's round-trip law guarantees that parsing
    /// this text gives the same tasks and counter back.
    pub fn save_string(&self) -> (r: String)
        ensures
            r@ == crate::codec::enc_store(self@.tasks, self@.next_id),
            crate::task::tasks_bounded(self@.tasks),
    {
        let out = crate::codec::encode_store_text(&self.tasks, self.next_id);
        proof {
            assert(crate::codec::tasks_view(self.tasks@) =~= self@.tasks);
            assert forall|i: int| 0 <= i < self@.tasks.len()
                implies crate::task::task_bounded(#[trigger] self@.tasks[i]) by {
                assert(self@.tasks[i] == self.tasks@[i]@);
                assert forall|j: int| 0 <= j < self@.tasks[i].reminders.len()
                    implies crate::task::reminder_bounded(
                    #[trigger] self@.tasks[i].reminders[j],
                ) by {
                    assert(self@.tasks[i].reminders[j] == self.tasks@[i].reminders@[j]@);
                }
            }
        }
        out
    }

    /// Prepares the fixed configuration-test message: every plain value
    /// one SMTP delivery needs, addressed from and to the configured
    /// address. Missing or incomplete settings fail with the exact error
    /// text below; complete settings always prepare.
    pub fn prepare_test_email(&self) -> (r: Result<crate::delivery::OutboundEmail, String>)
        ensures
            self@.email_config is None ==> (r matches Err(e)
                && e@ == "Email configuration not set"@),
            self@.email_config is Some && !email_ready(self@) ==> (r matches Err(e)
                && e@ == "Email configuration is incomplete. Please check your settings."@),
            email_ready(self@) ==> r is Ok,
            r is Ok ==> email_ready(self@),
            r matches Ok(m) ==> (match self@.email_config {
                Some(c) => {
                    &&& m.from@ == "Task Scheduler"@ + " <"@ + c.email + ">"@
                    &&& m.to@ == c.email
                    &&& m.subject@ == "Test Email from Task Scheduler"@
                    &&& m.body@
                        == "This is a test email to verify your email configuration is working correctly."@
                    &&& m.smtp_server@ == c.smtp_server
                    &&& m.smtp_port == c.smtp_port
                    &&& m.username@ == c.username
                    &&& m.password@ == c.password
                },
                None => false,
            }),
    {
        let config = match self.email_config.as_ref() {
            Some(c) => c,
            None => {
                return Err("Email configuration not set".to_owned());
            },
        };
        if config.email.as_str().is_empty() || config.smtp_server.as_str().is_empty()
            || config.username.as_str().is_empty() {
            return Err("Email configuration is incomplete. Please check your settings.".to_owned());
        }
        Ok(crate::delivery::OutboundEmail {
            from: crate::delivery::compose_sender("Task Scheduler", config.email.as_str()),
            to: config.email.clone(),
            subject: "Test Email from Task Scheduler".to_owned(),
            body: "This is a test email to verify your email configuration is working correctly."
                .to_owned(),
            smtp_server: config.smtp_server.clone(),
            smtp_port: config.smtp_port,
            username: config.username.clone(),
            password: config.password.clone(),
        })
    }

    /// Sends the fixed test message to the configured address, as
    /// [`TaskScheduler::prepare_test_email`] prepares it, to check the
    /// email settings. Missing or incomplete settings fail with the
    /// exact error text below; otherwise the outcome is the transport's.
    pub fn test_email_config(&self) -> (r: Result<(), String>)
        ensures
            self@.email_config is None ==> (r matches Err(e)
                && e@ == "Email configuration not set"@),
            self@.email_config is Some && !email_ready(self@) ==> (r matches Err(e)
                && e@ == "Email configuration is incomplete. Please check your settings."@),
            r is Ok ==> email_ready(self@),
    {
        match self.prepare_test_email() {
            Ok(mail) => crate::delivery::send_outbound_email(mail),
            Err(e) => Err(e),
        }
    }
}

} // verus!
