//! The reminder trigger scan: which reminders of a task fire at a given
//! time, how the attempt bookkeeping changes them, and which delivery
//! work the scan hands to the dispatch loop.
//!
//! A reminder is *retry-eligible* at `now` exactly when it is unsent,
//! due, under the retry limit, and past the minimum spacing since its
//! last attempt. The scan marks every eligible reminder as attempted
//! (`last_attempt`, `retry_count`), marks pure notification reminders as
//! sent on the spot, and emits one entry per delivery leg.

use vstd::prelude::*;

use crate::task::{
    MAX_RETRIES, RETRY_DELAY_SECONDS, Reminder, ReminderModel, ReminderType, Task, TaskModel,
};

verus! {

/// The reminder should fire at `now`: unsent, due, under the retry
/// limit, and more than [`RETRY_DELAY_SECONDS`] past its last attempt.
pub open spec fn reminder_eligible(r: ReminderModel, now: int) -> bool {
    &&& !r.sent
    &&& r.reminder_time <= now
    &&& r.retry_count < MAX_RETRIES as int
    &&& match r.last_attempt {
        None => true,
        Some(t) => now - t > RETRY_DELAY_SECONDS as int,
    }
}

/// The reminder after one scan at `now`: an eligible reminder records
/// the attempt (and a pure notification is sent on the spot); any other
/// reminder is untouched.
pub open spec fn reminder_after_scan(r: ReminderModel, now: int) -> ReminderModel {
    if reminder_eligible(r, now) {
        ReminderModel {
            sent: r.reminder_type is Notification,
            retry_count: r.retry_count + 1,
            last_attempt: Some(now),
            ..r
        }
    } else {
        r
    }
}

/// One entry of the trigger output: a delivery leg for one reminder of
/// one task. Deferred legs (email, SMS) carry the reminder's index so
/// the dispatcher can confirm or record failure later; notification
/// legs carry none, being fire-and-forget.
pub ghost struct TriggeredModel {
    pub task_id: u32,
    pub title: Seq<char>,
    pub channel: ReminderType,
    pub reminder_index: Option<int>,
}

/// The entries one reminder contributes to the scan output at `now`:
/// nothing if it is not eligible; otherwise one entry per delivery leg
/// its channel implies, the notification leg first.
pub open spec fn reminder_emits(
    task_id: u32,
    title: Seq<char>,
    idx: int,
    r: ReminderModel,
    now: int,
) -> Seq<TriggeredModel> {
    if !reminder_eligible(r, now) {
        Seq::empty()
    } else {
        match r.reminder_type {
            ReminderType::Notification => seq![
                TriggeredModel {
                    task_id,
                    title,
                    channel: ReminderType::Notification,
                    reminder_index: None,
                },
            ],
            ReminderType::Email => seq![
                TriggeredModel {
                    task_id,
                    title,
                    channel: ReminderType::Email,
                    reminder_index: Some(idx),
                },
            ],
            ReminderType::Sms => seq![
                TriggeredModel {
                    task_id,
                    title,
                    channel: ReminderType::Sms,
                    reminder_index: Some(idx),
                },
            ],
            ReminderType::Both => seq![
                TriggeredModel {
                    task_id,
                    title,
                    channel: ReminderType::Notification,
                    reminder_index: None,
                },
                TriggeredModel {
                    task_id,
                    title,
                    channel: ReminderType::Email,
                    reminder_index: Some(idx),
                },
            ],
            ReminderType::All => seq![
                TriggeredModel {
                    task_id,
                    title,
                    channel: ReminderType::Notification,
                    reminder_index: None,
                },
                TriggeredModel {
                    task_id,
                    title,
                    channel: ReminderType::Email,
                    reminder_index: Some(idx),
                },
                TriggeredModel {
                    task_id,
                    title,
                    channel: ReminderType::Sms,
                    reminder_index: Some(idx),
                },
            ],
        }
    }
}

/// The desktop notifications (title, body) one reminder asks for at
/// `now`: one for an eligible reminder whose channel includes the local
/// notification, none otherwise.
pub open spec fn reminder_notes(t: TaskModel, r: ReminderModel, now: int) -> Seq<
    (Seq<char>, Seq<char>),
> {
    if reminder_eligible(r, now) && (r.reminder_type is Notification || r.reminder_type is Both
        || r.reminder_type is All) {
        seq![(t.title, t.description)]
    } else {
        Seq::empty()
    }
}

/// Scan output of the first `n` reminders of a task, in reminder order.
pub open spec fn task_emits_upto(t: TaskModel, now: int, n: int) -> Seq<TriggeredModel>
    decreases n,
{
    if n <= 0 {
        Seq::empty()
    } else {
        task_emits_upto(t, now, n - 1) + reminder_emits(t.id, t.title, n - 1, t.reminders[n - 1], now)
    }
}

/// Scan output of one whole task.
pub open spec fn task_emits(t: TaskModel, now: int) -> Seq<TriggeredModel> {
    task_emits_upto(t, now, t.reminders.len() as int)
}

/// Notifications of the first `n` reminders of a task.
pub open spec fn task_notes_upto(t: TaskModel, now: int, n: int) -> Seq<(Seq<char>, Seq<char>)>
    decreases n,
{
    if n <= 0 {
        Seq::empty()
    } else {
        task_notes_upto(t, now, n - 1) + reminder_notes(t, t.reminders[n - 1], now)
    }
}

/// Notifications of one whole task.
pub open spec fn task_notes(t: TaskModel, now: int) -> Seq<(Seq<char>, Seq<char>)> {
    task_notes_upto(t, now, t.reminders.len() as int)
}

/// The task after one scan at `now`: every reminder updated by
/// [`reminder_after_scan`], everything else untouched.
pub open spec fn task_after_scan(t: TaskModel, now: int) -> TaskModel {
    TaskModel {
        reminders: Seq::new(t.reminders.len(), |i: int| reminder_after_scan(t.reminders[i], now)),
        ..t
    }
}

/// Scan output of the first `n` tasks of a store, in store order.
pub open spec fn store_emits_upto(ts: Seq<TaskModel>, now: int, n: int) -> Seq<TriggeredModel>
    decreases n,
{
    if n <= 0 {
        Seq::empty()
    } else {
        store_emits_upto(ts, now, n - 1) + task_emits(ts[n - 1], now)
    }
}

/// Scan output of a whole store: every task's entries, in store order.
pub open spec fn store_emits(ts: Seq<TaskModel>, now: int) -> Seq<TriggeredModel> {
    store_emits_upto(ts, now, ts.len() as int)
}

/// The executable entry `x` denotes the model entry `m`.
pub open spec fn trig_match(x: (u32, String, ReminderType, Option<usize>), m: TriggeredModel) -> bool {
    &&& x.0 == m.task_id
    &&& x.1@ == m.title
    &&& x.2 == m.channel
    &&& match (x.3, m.reminder_index) {
        (Some(a), Some(b)) => a as int == b,
        (None, None) => true,
        _ => false,
    }
}

/// The executable entries denote exactly the model entries, in order.
pub open spec fn trig_match_seq(
    xs: Seq<(u32, String, ReminderType, Option<usize>)>,
    ms: Seq<TriggeredModel>,
) -> bool {
    &&& xs.len() == ms.len()
    &&& forall|i: int| 0 <= i < xs.len() ==> trig_match(xs[i], ms[i])
}

/// The executable note `x` denotes the model note `m`.
pub open spec fn note_match(x: (String, String), m: (Seq<char>, Seq<char>)) -> bool {
    x.0@ == m.0 && x.1@ == m.1
}

/// The executable notes denote exactly the model notes, in order.
pub open spec fn note_match_seq(
    xs: Seq<(String, String)>,
    ms: Seq<(Seq<char>, Seq<char>)>,
) -> bool {
    &&& xs.len() == ms.len()
    &&& forall|i: int| 0 <= i < xs.len() ==> note_match(xs[i], ms[i])
}

/// Matching concatenates: matching parts give a matching whole.
pub proof fn lemma_trig_match_concat(
    xs: Seq<(u32, String, ReminderType, Option<usize>)>,
    ms: Seq<TriggeredModel>,
    ys: Seq<(u32, String, ReminderType, Option<usize>)>,
    ns: Seq<TriggeredModel>,
)
    requires
        trig_match_seq(xs, ms),
        trig_match_seq(ys, ns),
    ensures
        trig_match_seq(xs + ys, ms + ns),
{
    assert forall|i: int| 0 <= i < (xs + ys).len() implies trig_match((xs + ys)[i], (ms + ns)[i]) by {
        if i < xs.len() {
            assert((xs + ys)[i] == xs[i]);
            assert((ms + ns)[i] == ms[i]);
        } else {
            assert((xs + ys)[i] == ys[i - xs.len()]);
            assert((ms + ns)[i] == ns[i - ms.len()]);
        }
    }
}

/// Clones an optional message, preserving its text.
fn clone_opt_string(o: &Option<String>) -> (r: Option<String>)
    ensures
        r is Some <==> o is Some,
        r matches Some(x) ==> (o matches Some(y) && x@ == y@),
{
    match o {
        Some(s) => Some(s.clone()),
        None => None,
    }
}

/// Clones a list of strings, preserving every element's text.
fn clone_string_vec(v: &Vec<String>) -> (r: Vec<String>)
    ensures
        r@.len() == v@.len(),
        forall|i: int| 0 <= i < v@.len() ==> r@[i]@ == v@[i]@,
{
    let n = v.len();
    let mut out: Vec<String> = Vec::new();
    let mut i: usize = 0;
    while i < n
        invariant
            n == v@.len(),
            0 <= i <= n,
            out@.len() == i,
            forall|j: int| 0 <= j < i ==> out@[j]@ == v@[j]@,
        decreases n - i,
    {
        out.push(v[i].clone());
        i += 1;
    }
    out
}

/// Scans one task at `now`: returns the task after the scan, the
/// delivery entries it emits, and the desktop notifications it asks for.
pub fn scan_task(task: &Task, now: i64) -> (res: (
    Task,
    Vec<(u32, String, ReminderType, Option<usize>)>,
    Vec<(String, String)>,
))
    ensures
        res.0@ == task_after_scan(task@, now as int),
        trig_match_seq(res.1@, task_emits(task@, now as int)),
        note_match_seq(res.2@, task_notes(task@, now as int)),
{
    let n = task.reminders.len();
    let mut new_rems: Vec<Reminder> = Vec::new();
    let mut trig: Vec<(u32, String, ReminderType, Option<usize>)> = Vec::new();
    let mut notes: Vec<(String, String)> = Vec::new();
    let mut i: usize = 0;
    while i < n
        invariant
            n == task.reminders@.len(),
            0 <= i <= n,
            new_rems@.len() == i,
            forall|j: int| 0 <= j < i
                ==> new_rems@[j]@ == reminder_after_scan(task@.reminders[j], now as int),
            trig_match_seq(trig@, task_emits_upto(task@, now as int, i as int)),
            note_match_seq(notes@, task_notes_upto(task@, now as int, i as int)),
        decreases n - i,
    {
        let r = &task.reminders[i];
        let ghost rm = task@.reminders[i as int];
        let gap_ok = match r.last_attempt {
            None => true,
            Some(t) => (now as i128) - (t as i128) > RETRY_DELAY_SECONDS as i128,
        };
        let eligible = !r.sent && r.reminder_time <= now && r.retry_count < MAX_RETRIES && gap_ok;
        assert(eligible == reminder_eligible(rm, now as int));

        if eligible {
            new_rems.push(Reminder {
                reminder_time: r.reminder_time,
                reminder_type: r.reminder_type,
                sent: r.reminder_type == ReminderType::Notification,
                retry_count: r.retry_count + 1,
                last_attempt: Some(now),
                error_message: clone_opt_string(&r.error_message),
            });
            assert(new_rems@[i as int]@ == reminder_after_scan(rm, now as int));

            let ghost trig0 = trig@;
            let ghost notes0 = notes@;
            match r.reminder_type {
                ReminderType::Notification => {
                    notes.push((task.title.clone(), task.description.clone()));
                    trig.push((task.id, task.title.clone(), ReminderType::Notification, None));
                },
                ReminderType::Email => {
                    trig.push((task.id, task.title.clone(), ReminderType::Email, Some(i)));
                },
                ReminderType::Sms => {
                    trig.push((task.id, task.title.clone(), ReminderType::Sms, Some(i)));
                },
                ReminderType::Both => {
                    notes.push((task.title.clone(), task.description.clone()));
                    trig.push((task.id, task.title.clone(), ReminderType::Notification, None));
                    trig.push((task.id, task.title.clone(), ReminderType::Email, Some(i)));
                },
                ReminderType::All => {
                    notes.push((task.title.clone(), task.description.clone()));
                    trig.push((task.id, task.title.clone(), ReminderType::Notification, None));
                    trig.push((task.id, task.title.clone(), ReminderType::Email, Some(i)));
                    trig.push((task.id, task.title.clone(), ReminderType::Sms, Some(i)));
                },
            }
            proof {
                let em = reminder_emits(task@.id, task@.title, i as int, rm, now as int);
                let nm = reminder_notes(task@, rm, now as int);
                assert(trig@.len() == trig0.len() + em.len());
                assert forall|k: int| 0 <= k < trig@.len()
                    implies trig_match(trig@[k], (task_emits_upto(task@, now as int, i as int)
                        + em)[k]) by {
                    if k < trig0.len() {
                        assert(trig@[k] == trig0[k]);
                    }
                }
                assert(notes@.len() == notes0.len() + nm.len());
                assert forall|k: int| 0 <= k < notes@.len()
                    implies note_match(notes@[k], (task_notes_upto(task@, now as int, i as int)
                        + nm)[k]) by {
                    if k < notes0.len() {
                        assert(notes@[k] == notes0[k]);
                    }
                }
            }
        } else {
            new_rems.push(Reminder {
                reminder_time: r.reminder_time,
                reminder_type: r.reminder_type,
                sent: r.sent,
                retry_count: r.retry_count,
                last_attempt: r.last_attempt,
                error_message: clone_opt_string(&r.error_message),
            });
            assert(new_rems@[i as int]@ == reminder_after_scan(rm, now as int));
        }
        i += 1;
    }
    let new_task = Task {
        id: task.id,
        title: task.title.clone(),
        description: task.description.clone(),
        due_date: task.due_date,
        priority: task.priority,
        status: task.status,
        created_at: task.created_at,
        reminders: new_rems,
        tags: clone_string_vec(&task.tags),
    };
    proof {
        assert(new_task@.reminders =~= task_after_scan(task@, now as int).reminders);
        assert(new_task@.tags =~= task@.tags);
    }
    (new_task, trig, notes)
}

/// Law: a reminder already marked sent never appears in the scan
/// output, whatever `now` is.
pub proof fn lemma_sent_never_triggers(
    task_id: u32,
    title: Seq<char>,
    idx: int,
    r: ReminderModel,
    now: int,
)
    requires
        r.sent,
    ensures
        reminder_emits(task_id, title, idx, r, now) == Seq::<TriggeredModel>::empty(),
{
}

/// Law: once a reminder has been attempted `MAX_RETRIES` times it never
/// appears in the scan output again, however far `now` advances.
pub proof fn lemma_retry_bound(
    task_id: u32,
    title: Seq<char>,
    idx: int,
    r: ReminderModel,
    now: int,
)
    requires
        r.retry_count >= MAX_RETRIES as int,
    ensures
        reminder_emits(task_id, title, idx, r, now) == Seq::<TriggeredModel>::empty(),
{
}

/// Law: two consecutive firings of one reminder are spaced by more than
/// [`RETRY_DELAY_SECONDS`]: after a scan triggers it at `now1`, it emits
/// nothing at any `now2` within the delay window.
pub proof fn lemma_retry_spacing(
    task_id: u32,
    title: Seq<char>,
    idx: int,
    r: ReminderModel,
    now1: int,
    now2: int,
)
    requires
        reminder_eligible(r, now1),
        now2 - now1 <= RETRY_DELAY_SECONDS as int,
    ensures
        !reminder_eligible(reminder_after_scan(r, now1), now2),
        reminder_emits(task_id, title, idx, reminder_after_scan(r, now1), now2)
            == Seq::<TriggeredModel>::empty(),
{
}

/// Law: a reminder of type `Notification` is sent immediately by the
/// scan that triggers it, with no later confirmation step.
pub proof fn lemma_notification_immediate(r: ReminderModel, now: int)
    requires
        r.reminder_type is Notification,
        reminder_eligible(r, now),
    ensures
        reminder_after_scan(r, now).sent,
{
}

/// Every entry one task contributes stems from one of its eligible
/// reminders and carries the task's id and title.
proof fn lemma_task_entry_from_eligible(t: TaskModel, now: int, n: int, k: int)
    requires
        n <= t.reminders.len(),
        0 <= k < task_emits_upto(t, now, n).len(),
    ensures
        task_emits_upto(t, now, n)[k].task_id == t.id,
        task_emits_upto(t, now, n)[k].title == t.title,
        exists|ri: int|
            0 <= ri < n && reminder_eligible(#[trigger] t.reminders[ri], now),
    decreases n,
{
    if n > 0 {
        let prefix = task_emits_upto(t, now, n - 1);
        let em = reminder_emits(t.id, t.title, n - 1, t.reminders[n - 1], now);
        if k < prefix.len() {
            lemma_task_entry_from_eligible(t, now, n - 1, k);
            assert(task_emits_upto(t, now, n)[k] == prefix[k]);
        } else {
            assert(em.len() > 0);
            assert(reminder_eligible(t.reminders[n - 1], now));
            assert(task_emits_upto(t, now, n)[k] == em[k - prefix.len()]);
            assert forall|j: int| 0 <= j < em.len() implies em[j].task_id == t.id
                && em[j].title == t.title by {}
        }
    }
}

/// Law: every entry the scan emits stems from a reminder that was
/// eligible at `now` — unsent, due, under the retry bound, and past the
/// spacing window — so a sent or retry-exhausted reminder never reaches
/// the output.
pub proof fn lemma_emitted_entry_from_eligible(ts: Seq<TaskModel>, now: int, k: int)
    requires
        0 <= k < store_emits(ts, now).len(),
    ensures
        exists|ti: int, ri: int|
            0 <= ti < ts.len() && 0 <= ri < ts[ti].reminders.len() && reminder_eligible(
                #[trigger] ts[ti].reminders[ri],
                now,
            ) && store_emits(ts, now)[k].task_id == ts[ti].id,
{
    lemma_store_entry_from_eligible(ts, now, ts.len() as int, k);
}

proof fn lemma_store_entry_from_eligible(ts: Seq<TaskModel>, now: int, n: int, k: int)
    requires
        n <= ts.len(),
        0 <= k < store_emits_upto(ts, now, n).len(),
    ensures
        exists|ti: int, ri: int|
            0 <= ti < n && 0 <= ri < ts[ti].reminders.len() && reminder_eligible(
                #[trigger] ts[ti].reminders[ri],
                now,
            ) && store_emits_upto(ts, now, n)[k].task_id == ts[ti].id,
    decreases n,
{
    if n > 0 {
        let prefix = store_emits_upto(ts, now, n - 1);
        let em = task_emits(ts[n - 1], now);
        if k < prefix.len() {
            lemma_store_entry_from_eligible(ts, now, n - 1, k);
            assert(store_emits_upto(ts, now, n)[k] == prefix[k]);
        } else {
            let j = k - prefix.len();
            assert(store_emits_upto(ts, now, n)[k] == em[j]);
            lemma_task_entry_from_eligible(ts[n - 1], now, ts[n - 1].reminders.len() as int, j);
            let ri = choose|ri: int|
                0 <= ri < ts[n - 1].reminders.len() && reminder_eligible(
                    #[trigger] ts[n - 1].reminders[ri],
                    now,
                );
            assert(0 <= n - 1 < n && 0 <= ri < ts[n - 1].reminders.len() && reminder_eligible(
                ts[n - 1].reminders[ri],
                now,
            ) && store_emits_upto(ts, now, n)[k].task_id == ts[n - 1].id);
        }
    }
}

/// Law: a store whose reminders are all sent emits nothing at all.
pub proof fn lemma_all_sent_no_triggers(ts: Seq<TaskModel>, now: int)
    requires
        forall|i: int, j: int|
            0 <= i < ts.len() && 0 <= j < ts[i].reminders.len() ==> ts[i].reminders[j].sent,
    ensures
        store_emits(ts, now) == Seq::<TriggeredModel>::empty(),
    decreases ts.len(),
{
    lemma_all_sent_no_triggers_upto(ts, now, ts.len() as int);
}

proof fn lemma_all_sent_no_triggers_upto(ts: Seq<TaskModel>, now: int, n: int)
    requires
        n <= ts.len(),
        forall|i: int, j: int|
            0 <= i < ts.len() && 0 <= j < ts[i].reminders.len() ==> ts[i].reminders[j].sent,
    ensures
        store_emits_upto(ts, now, n) == Seq::<TriggeredModel>::empty(),
    decreases n,
{
    if n > 0 {
        lemma_all_sent_no_triggers_upto(ts, now, n - 1);
        lemma_task_all_sent_upto(ts[n - 1], now, ts[n - 1].reminders.len() as int);
        assert(store_emits_upto(ts, now, n) =~= Seq::<TriggeredModel>::empty());
    }
}

proof fn lemma_task_all_sent_upto(t: TaskModel, now: int, n: int)
    requires
        n <= t.reminders.len(),
        forall|j: int| 0 <= j < t.reminders.len() ==> t.reminders[j].sent,
    ensures
        task_emits_upto(t, now, n) == Seq::<TriggeredModel>::empty(),
    decreases n,
{
    if n > 0 {
        lemma_task_all_sent_upto(t, now, n - 1);
        assert(task_emits_upto(t, now, n) =~= Seq::<TriggeredModel>::empty());
    }
}

} // verus!
