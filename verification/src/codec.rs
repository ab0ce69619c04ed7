//! The persisted form of the task store: one JSON-style document
//! holding the task list and the id counter, written as nested arrays
//! with quoted, escaped strings. The encoder always produces the
//! canonical form below, and the parser accepts exactly that form:
//!
//! ```text
//! store    := '[' tasklist ',' nat ']'
//! tasklist := '[' ( task ( ',' task )* )? ']'
//! task     := '[' id ',' title ',' description ',' due ',' priority
//!             ',' status ',' created ',' remlist ',' taglist ']'
//! rem      := '[' time ',' channel ',' sent ',' retries ','
//!             last_attempt ',' error ']'
//! ```
//!
//! Numbers are decimal (a leading `-` when negative), booleans are
//! `true`/`false`, an absent optional is `null`, and the enumerations
//! are stored as small numeric codes. Parsing the encoder's output
//! gives back exactly the encoded store; that round trip is proved
//! here.

use vstd::prelude::*;

use crate::task::{
    Reminder, ReminderModel, ReminderType, Task, TaskModel, TaskPriority, TaskStatus,
    reminder_bounded, task_bounded, tasks_bounded,
};
use crate::text::{
    dec_of, dec_of_int, digit_val, is_digit_char, matches_at, push_char,
};

verus! {

// ------------------------------------------------------------------
// Numeric codes of the enumerations
// ------------------------------------------------------------------

/// The stored code of a priority.
pub open spec fn priority_code(p: TaskPriority) -> nat {
    match p {
        TaskPriority::Low => 0,
        TaskPriority::Medium => 1,
        TaskPriority::High => 2,
        TaskPriority::Urgent => 3,
    }
}

/// The priority a stored code denotes.
pub open spec fn code_priority(n: nat) -> Option<TaskPriority> {
    if n == 0 {
        Some(TaskPriority::Low)
    } else if n == 1 {
        Some(TaskPriority::Medium)
    } else if n == 2 {
        Some(TaskPriority::High)
    } else if n == 3 {
        Some(TaskPriority::Urgent)
    } else {
        None
    }
}

/// The stored code of a status.
pub open spec fn status_code(s: TaskStatus) -> nat {
    match s {
        TaskStatus::Pending => 0,
        TaskStatus::InProgress => 1,
        TaskStatus::Completed => 2,
        TaskStatus::Cancelled => 3,
    }
}

/// The status a stored code denotes.
pub open spec fn code_status(n: nat) -> Option<TaskStatus> {
    if n == 0 {
        Some(TaskStatus::Pending)
    } else if n == 1 {
        Some(TaskStatus::InProgress)
    } else if n == 2 {
        Some(TaskStatus::Completed)
    } else if n == 3 {
        Some(TaskStatus::Cancelled)
    } else {
        None
    }
}

/// The stored code of a reminder channel.
pub open spec fn rtype_code(t: ReminderType) -> nat {
    match t {
        ReminderType::Email => 0,
        ReminderType::Notification => 1,
        ReminderType::Sms => 2,
        ReminderType::Both => 3,
        ReminderType::All => 4,
    }
}

/// The reminder channel a stored code denotes.
pub open spec fn code_rtype(n: nat) -> Option<ReminderType> {
    if n == 0 {
        Some(ReminderType::Email)
    } else if n == 1 {
        Some(ReminderType::Notification)
    } else if n == 2 {
        Some(ReminderType::Sms)
    } else if n == 3 {
        Some(ReminderType::Both)
    } else if n == 4 {
        Some(ReminderType::All)
    } else {
        None
    }
}

// ------------------------------------------------------------------
// The encoding, as a function of the store's model
// ------------------------------------------------------------------

/// A character inside a stored string: quote and backslash get a
/// backslash escape, everything else stands for itself.
pub open spec fn esc_char(c: char) -> Seq<char> {
    if c == '"' || c == '\\' {
        seq!['\\', c]
    } else {
        seq![c]
    }
}

/// A string's characters, escaped.
pub open spec fn esc(s: Seq<char>) -> Seq<char>
    decreases s.len(),
{
    if s.len() == 0 {
        Seq::empty()
    } else {
        esc_char(s[0]) + esc(s.drop_first())
    }
}

/// A stored string: quoted and escaped.
pub open spec fn enc_string(s: Seq<char>) -> Seq<char> {
    seq!['"'] + esc(s) + seq!['"']
}

pub open spec fn enc_bool(b: bool) -> Seq<char> {
    if b {
        "true"@
    } else {
        "false"@
    }
}

pub open spec fn enc_opt_i64(o: Option<int>) -> Seq<char> {
    match o {
        Some(v) => dec_of_int(v),
        None => "null"@,
    }
}

pub open spec fn enc_opt_string(o: Option<Seq<char>>) -> Seq<char> {
    match o {
        Some(s) => enc_string(s),
        None => "null"@,
    }
}

/// One stored reminder.
pub open spec fn enc_rem(r: ReminderModel) -> Seq<char> {
    seq!['['] + dec_of_int(r.reminder_time) + seq![','] + dec_of(rtype_code(r.reminder_type))
        + seq![','] + enc_bool(r.sent) + seq![','] + dec_of(r.retry_count as nat) + seq![',']
        + enc_opt_i64(r.last_attempt) + seq![','] + enc_opt_string(r.error_message) + seq![']']
}

/// The stored reminders from position `k` on, comma-separated.
pub open spec fn enc_rem_items(rs: Seq<ReminderModel>, k: int) -> Seq<char>
    decreases rs.len() - k,
{
    if k < 0 || k >= rs.len() {
        Seq::empty()
    } else if k == rs.len() - 1 {
        enc_rem(rs[k])
    } else {
        enc_rem(rs[k]) + seq![','] + enc_rem_items(rs, k + 1)
    }
}

/// A stored reminder list.
pub open spec fn enc_rems(rs: Seq<ReminderModel>) -> Seq<char> {
    if rs.len() == 0 {
        seq!['[', ']']
    } else {
        seq!['['] + enc_rem_items(rs, 0) + seq![']']
    }
}

/// The stored tags from position `k` on, comma-separated.
pub open spec fn enc_tag_items(tags: Seq<Seq<char>>, k: int) -> Seq<char>
    decreases tags.len() - k,
{
    if k < 0 || k >= tags.len() {
        Seq::empty()
    } else if k == tags.len() - 1 {
        enc_string(tags[k])
    } else {
        enc_string(tags[k]) + seq![','] + enc_tag_items(tags, k + 1)
    }
}

/// A stored tag list.
pub open spec fn enc_tags(tags: Seq<Seq<char>>) -> Seq<char> {
    if tags.len() == 0 {
        seq!['[', ']']
    } else {
        seq!['['] + enc_tag_items(tags, 0) + seq![']']
    }
}

/// One stored task.
pub open spec fn enc_task(t: TaskModel) -> Seq<char> {
    seq!['['] + dec_of(t.id as nat) + seq![','] + enc_string(t.title) + seq![',']
        + enc_string(t.description) + seq![','] + dec_of_int(t.due_date) + seq![',']
        + dec_of(priority_code(t.priority)) + seq![','] + dec_of(status_code(t.status))
        + seq![','] + dec_of_int(t.created_at) + seq![','] + enc_rems(t.reminders) + seq![',']
        + enc_tags(t.tags) + seq![']']
}

/// The stored tasks from position `k` on, comma-separated.
pub open spec fn enc_task_items(ts: Seq<TaskModel>, k: int) -> Seq<char>
    decreases ts.len() - k,
{
    if k < 0 || k >= ts.len() {
        Seq::empty()
    } else if k == ts.len() - 1 {
        enc_task(ts[k])
    } else {
        enc_task(ts[k]) + seq![','] + enc_task_items(ts, k + 1)
    }
}

/// A stored task list.
pub open spec fn enc_task_list(ts: Seq<TaskModel>) -> Seq<char> {
    if ts.len() == 0 {
        seq!['[', ']']
    } else {
        seq!['['] + enc_task_items(ts, 0) + seq![']']
    }
}

/// The whole stored document: the task list and the id counter.
pub open spec fn enc_store(ts: Seq<TaskModel>, next_id: u32) -> Seq<char> {
    seq!['['] + enc_task_list(ts) + seq![','] + dec_of(next_id as nat) + seq![']']
}

// ------------------------------------------------------------------
// The parser, as a function of the document's characters
// ------------------------------------------------------------------

/// The first position at or after `i` that does not hold a digit.
pub open spec fn digits_end(s: Seq<char>, i: int) -> int
    decreases s.len() - i,
{
    if 0 <= i < s.len() && is_digit_char(s[i]) {
        digits_end(s, i + 1)
    } else {
        i
    }
}

/// The value of the digits of `s` in positions `i` to `j`.
pub open spec fn val_of(s: Seq<char>, i: int, j: int) -> nat
    decreases j - i,
{
    if i >= j {
        0
    } else {
        val_of(s, i, j - 1) * 10 + digit_val(s[j - 1])
    }
}

/// Parses a run of one or more digits at `i`.
pub open spec fn p_nat(s: Seq<char>, i: int) -> Option<(nat, int)> {
    let e = digits_end(s, i);
    if 0 <= i && e > i {
        Some((val_of(s, i, e), e))
    } else {
        None
    }
}

/// Parses a digit run that fits a `u32`.
pub open spec fn p_u32(s: Seq<char>, i: int) -> Option<(u32, int)> {
    match p_nat(s, i) {
        Some((n, j)) => if n <= u32::MAX as nat {
            Some((n as u32, j))
        } else {
            None
        },
        None => None,
    }
}

/// Parses an optionally negated digit run that fits an `i64`.
pub open spec fn p_i64(s: Seq<char>, i: int) -> Option<(i64, int)> {
    if 0 <= i < s.len() && s[i] == '-' {
        match p_nat(s, i + 1) {
            Some((n, j)) => if n <= 0x8000_0000_0000_0000 {
                Some(((-(n as int)) as i64, j))
            } else {
                None
            },
            None => None,
        }
    } else {
        match p_nat(s, i) {
            Some((n, j)) => if n <= i64::MAX as nat {
                Some((n as i64, j))
            } else {
                None
            },
            None => None,
        }
    }
}

/// Parses `true` or `false`.
pub open spec fn p_bool(s: Seq<char>, i: int) -> Option<(bool, int)> {
    if matches_at(s, "true"@, i) {
        Some((true, i + 4))
    } else if matches_at(s, "false"@, i) {
        Some((false, i + 5))
    } else {
        None
    }
}

/// Parses `null` or a number.
pub open spec fn p_opt_i64(s: Seq<char>, i: int) -> Option<(Option<i64>, int)> {
    if matches_at(s, "null"@, i) {
        Some((None, i + 4))
    } else {
        match p_i64(s, i) {
            Some((v, j)) => Some((Some(v), j)),
            None => None,
        }
    }
}

/// Parses the characters of a string after its opening quote, undoing
/// escapes, up to and past the closing quote.
pub open spec fn p_str_body(s: Seq<char>, i: int) -> Option<(Seq<char>, int)>
    decreases s.len() - i,
{
    if !(0 <= i < s.len()) {
        None
    } else if s[i] == '"' {
        Some((Seq::empty(), i + 1))
    } else if s[i] == '\\' {
        if i + 2 <= s.len() {
            match p_str_body(s, i + 2) {
                Some((t, j)) => Some((seq![s[i + 1]] + t, j)),
                None => None,
            }
        } else {
            None
        }
    } else {
        match p_str_body(s, i + 1) {
            Some((t, j)) => Some((seq![s[i]] + t, j)),
            None => None,
        }
    }
}

/// Parses a quoted string.
pub open spec fn p_string(s: Seq<char>, i: int) -> Option<(Seq<char>, int)> {
    if 0 <= i < s.len() && s[i] == '"' {
        p_str_body(s, i + 1)
    } else {
        None
    }
}

/// Parses `null` or a quoted string.
pub open spec fn p_opt_string(s: Seq<char>, i: int) -> Option<(Option<Seq<char>>, int)> {
    if matches_at(s, "null"@, i) {
        Some((None, i + 4))
    } else {
        match p_string(s, i) {
            Some((t, j)) => Some((Some(t), j)),
            None => None,
        }
    }
}

/// Parses one stored reminder.
pub open spec fn p_rem(s: Seq<char>, i: int) -> Option<(ReminderModel, int)> {
    if !(0 <= i < s.len() && s[i] == '[') {
        None
    } else {
        match p_i64(s, i + 1) {
            None => None,
            Some((time, j1)) => if !(j1 < s.len() && s[j1] == ',') {
                None
            } else {
                match p_u32(s, j1 + 1) {
                    None => None,
                    Some((code, j2)) => match code_rtype(code as nat) {
                        None => None,
                        Some(rt) => if !(j2 < s.len() && s[j2] == ',') {
                            None
                        } else {
                            match p_bool(s, j2 + 1) {
                                None => None,
                                Some((sent, j3)) => if !(j3 < s.len() && s[j3] == ',') {
                                    None
                                } else {
                                    match p_u32(s, j3 + 1) {
                                        None => None,
                                        Some((retries, j4)) => if !(j4 < s.len() && s[j4] == ',') {
                                            None
                                        } else {
                                            match p_opt_i64(s, j4 + 1) {
                                                None => None,
                                                Some((la, j5)) => if !(j5 < s.len()
                                                    && s[j5] == ',') {
                                                    None
                                                } else {
                                                    match p_opt_string(s, j5 + 1) {
                                                        None => None,
                                                        Some((err, j6)) => if !(j6 < s.len()
                                                            && s[j6] == ']') {
                                                            None
                                                        } else {
                                                            Some((
                                                                ReminderModel {
                                                                    reminder_time: time as int,
                                                                    reminder_type: rt,
                                                                    sent,
                                                                    retry_count: retries as int,
                                                                    last_attempt: match la {
                                                                        Some(v) => Some(v as int),
                                                                        None => None,
                                                                    },
                                                                    error_message: err,
                                                                },
                                                                j6 + 1,
                                                            ))
                                                        },
                                                    }
                                                },
                                            }
                                        },
                                    }
                                },
                            }
                        },
                    },
                }
            },
        }
    }
}

/// Parses one or more stored reminders up to and past the closing `]`.
pub open spec fn p_rem_items(s: Seq<char>, i: int) -> Option<(Seq<ReminderModel>, int)>
    decreases s.len() - i,
{
    match p_rem(s, i) {
        None => None,
        Some((r, j)) => if j < s.len() && s[j] == ',' {
            if i < j {
                match p_rem_items(s, j + 1) {
                    Some((rest, k)) => Some((seq![r] + rest, k)),
                    None => None,
                }
            } else {
                None
            }
        } else if j < s.len() && s[j] == ']' {
            Some((seq![r], j + 1))
        } else {
            None
        },
    }
}

/// Parses a stored reminder list.
pub open spec fn p_rems(s: Seq<char>, i: int) -> Option<(Seq<ReminderModel>, int)> {
    if !(0 <= i < s.len() && s[i] == '[') {
        None
    } else if i + 1 < s.len() && s[i + 1] == ']' {
        Some((Seq::empty(), i + 2))
    } else {
        p_rem_items(s, i + 1)
    }
}

/// Parses one or more stored tags up to and past the closing `]`.
pub open spec fn p_tag_items(s: Seq<char>, i: int) -> Option<(Seq<Seq<char>>, int)>
    decreases s.len() - i,
{
    match p_string(s, i) {
        None => None,
        Some((t, j)) => if j < s.len() && s[j] == ',' {
            if i < j {
                match p_tag_items(s, j + 1) {
                    Some((rest, k)) => Some((seq![t] + rest, k)),
                    None => None,
                }
            } else {
                None
            }
        } else if j < s.len() && s[j] == ']' {
            Some((seq![t], j + 1))
        } else {
            None
        },
    }
}

/// Parses a stored tag list.
pub open spec fn p_tags(s: Seq<char>, i: int) -> Option<(Seq<Seq<char>>, int)> {
    if !(0 <= i < s.len() && s[i] == '[') {
        None
    } else if i + 1 < s.len() && s[i + 1] == ']' {
        Some((Seq::empty(), i + 2))
    } else {
        p_tag_items(s, i + 1)
    }
}

/// Parses one stored task.
pub open spec fn p_task(s: Seq<char>, i: int) -> Option<(TaskModel, int)> {
    if !(0 <= i < s.len() && s[i] == '[') {
        None
    } else {
        match p_u32(s, i + 1) {
            None => None,
            Some((id, j1)) => if !(j1 < s.len() && s[j1] == ',') {
                None
            } else {
                match p_string(s, j1 + 1) {
                    None => None,
                    Some((title, j2)) => if !(j2 < s.len() && s[j2] == ',') {
                        None
                    } else {
                        match p_string(s, j2 + 1) {
                            None => None,
                            Some((descr, j3)) => if !(j3 < s.len() && s[j3] == ',') {
                                None
                            } else {
                                match p_i64(s, j3 + 1) {
                                    None => None,
                                    Some((due, j4)) => if !(j4 < s.len() && s[j4] == ',') {
                                        None
                                    } else {
                                        match p_u32(s, j4 + 1) {
                                            None => None,
                                            Some((pc, j5)) => match code_priority(pc as nat) {
                                                None => None,
                                                Some(pri) => if !(j5 < s.len() && s[j5] == ',') {
                                                    None
                                                } else {
                                                    match p_u32(s, j5 + 1) {
                                                        None => None,
                                                        Some((sc, j6)) => match code_status(
                                                            sc as nat,
                                                        ) {
                                                            None => None,
                                                            Some(st) => if !(j6 < s.len()
                                                                && s[j6] == ',') {
                                                                None
                                                            } else {
                                                                p_task_tail(
                                                                    s,
                                                                    j6 + 1,
                                                                    id,
                                                                    title,
                                                                    descr,
                                                                    due,
                                                                    pri,
                                                                    st,
                                                                )
                                                            },
                                                        },
                                                    }
                                                },
                                            },
                                        }
                                    },
                                }
                            },
                        }
                    },
                }
            },
        }
    }
}

/// Parses the tail of a stored task: created-at, reminders, tags, and
/// the closing bracket.
pub open spec fn p_task_tail(
    s: Seq<char>,
    i: int,
    id: u32,
    title: Seq<char>,
    descr: Seq<char>,
    due: i64,
    pri: TaskPriority,
    st: TaskStatus,
) -> Option<(TaskModel, int)> {
    match p_i64(s, i) {
        None => None,
        Some((created, j1)) => if !(j1 < s.len() && s[j1] == ',') {
            None
        } else {
            match p_rems(s, j1 + 1) {
                None => None,
                Some((rems, j2)) => if !(j2 < s.len() && s[j2] == ',') {
                    None
                } else {
                    match p_tags(s, j2 + 1) {
                        None => None,
                        Some((tags, j3)) => if !(j3 < s.len() && s[j3] == ']') {
                            None
                        } else {
                            Some((
                                TaskModel {
                                    id,
                                    title,
                                    description: descr,
                                    due_date: due as int,
                                    priority: pri,
                                    status: st,
                                    created_at: created as int,
                                    reminders: rems,
                                    tags,
                                },
                                j3 + 1,
                            ))
                        },
                    }
                },
            }
        },
    }
}

/// Parses one or more stored tasks up to and past the closing `]`.
pub open spec fn p_task_items(s: Seq<char>, i: int) -> Option<(Seq<TaskModel>, int)>
    decreases s.len() - i,
{
    match p_task(s, i) {
        None => None,
        Some((t, j)) => if j < s.len() && s[j] == ',' {
            if i < j {
                match p_task_items(s, j + 1) {
                    Some((rest, k)) => Some((seq![t] + rest, k)),
                    None => None,
                }
            } else {
                None
            }
        } else if j < s.len() && s[j] == ']' {
            Some((seq![t], j + 1))
        } else {
            None
        },
    }
}

/// Parses a stored task list.
pub open spec fn p_task_list(s: Seq<char>, i: int) -> Option<(Seq<TaskModel>, int)> {
    if !(0 <= i < s.len() && s[i] == '[') {
        None
    } else if i + 1 < s.len() && s[i + 1] == ']' {
        Some((Seq::empty(), i + 2))
    } else {
        p_task_items(s, i + 1)
    }
}

/// Parses the whole stored document.
pub open spec fn p_store(s: Seq<char>, i: int) -> Option<(Seq<TaskModel>, u32, int)> {
    if !(0 <= i < s.len() && s[i] == '[') {
        None
    } else {
        match p_task_list(s, i + 1) {
            None => None,
            Some((ts, j1)) => if !(j1 < s.len() && s[j1] == ',') {
                None
            } else {
                match p_u32(s, j1 + 1) {
                    None => None,
                    Some((nid, j2)) => if !(j2 < s.len() && s[j2] == ']') {
                        None
                    } else {
                        Some((ts, nid, j2 + 1))
                    },
                }
            },
        }
    }
}

/// The parsed ids are unique and below the parsed counter, which starts
/// at one: what the store invariant demands of a loaded document.
pub open spec fn ids_ok(ts: Seq<TaskModel>, next_id: u32) -> bool {
    &&& forall|i: int, j: int| 0 <= i < j < ts.len() ==> ts[i].id != ts[j].id
    &&& forall|i: int| 0 <= i < ts.len() ==> (#[trigger] ts[i]).id < next_id
    &&& next_id >= 1
}

/// The document parses completely and passes the id validation.
pub open spec fn store_parse_ok(s: Seq<char>) -> bool {
    match p_store(s, 0) {
        Some((ts, nid, j)) => j == s.len() && ids_ok(ts, nid),
        None => false,
    }
}

/// The tasks and counter a valid document denotes.
pub open spec fn parsed_store(s: Seq<char>) -> (Seq<TaskModel>, u32) {
    match p_store(s, 0) {
        Some((ts, nid, j)) => (ts, nid),
        None => (Seq::empty(), 0),
    }
}

// ------------------------------------------------------------------
// The executable encoder
// ------------------------------------------------------------------

/// The models of a list of reminders, in order.
pub open spec fn rems_view(v: Seq<Reminder>) -> Seq<ReminderModel> {
    Seq::new(v.len(), |i: int| v[i]@)
}

/// The texts of a list of tags, in order.
pub open spec fn tags_view(v: Seq<String>) -> Seq<Seq<char>> {
    Seq::new(v.len(), |i: int| v[i]@)
}

/// The models of a list of tasks, in order.
pub open spec fn tasks_view(v: Seq<Task>) -> Seq<TaskModel> {
    Seq::new(v.len(), |i: int| v[i]@)
}

/// The text an optional message stands for.
pub open spec fn opt_str_view(o: Option<String>) -> Option<Seq<char>> {
    match o {
        Some(s) => Some(s@),
        None => None,
    }
}

/// Appending one character extends the escaped form by that
/// character's escape.
proof fn lemma_esc_snoc(t: Seq<char>, c: char)
    ensures
        esc(t.push(c)) == esc(t) + esc_char(c),
    decreases t.len(),
{
    let p = t.push(c);
    assert(p.len() == t.len() + 1);
    if t.len() == 0 {
        assert(p[0] == c);
        assert(p.drop_first() =~= Seq::<char>::empty());
        assert(esc(Seq::<char>::empty()) == Seq::<char>::empty());
        assert(esc(p) == esc_char(c) + Seq::<char>::empty());
        assert(esc(t) == Seq::<char>::empty());
        assert(esc(p) =~= esc(t) + esc_char(c));
    } else {
        lemma_esc_snoc(t.drop_first(), c);
        assert(p[0] == t[0]);
        assert(p.drop_first() =~= t.drop_first().push(c));
        assert(esc(p) == esc_char(t[0]) + esc(t.drop_first().push(c)));
        assert(esc(t) == esc_char(t[0]) + esc(t.drop_first()));
        assert(esc(p) =~= esc(t) + esc_char(c));
    }
}

/// Appends the quoted, escaped form of `s`.
fn encode_string_into(out: &mut String, s: &str)
    ensures
        final(out)@ == old(out)@ + enc_string(s@),
{
    push_char(out, '"');
    proof {
        assert(s@.subrange(0, 0) =~= Seq::<char>::empty());
        assert(out@ =~= old(out)@ + seq!['"'] + esc(s@.subrange(0, 0)));
    }
    let n = s.unicode_len();
    let mut i: usize = 0;
    while i < n
        invariant
            n == s@.len(),
            0 <= i <= n,
            out@ == old(out)@ + seq!['"'] + esc(s@.subrange(0, i as int)),
        decreases n - i,
    {
        let c = s.get_char(i);
        proof {
            assert(s@.subrange(0, i + 1) =~= s@.subrange(0, i as int).push(s@[i as int]));
            lemma_esc_snoc(s@.subrange(0, i as int), s@[i as int]);
        }
        if c == '"' || c == '\\' {
            push_char(out, '\\');
            push_char(out, c);
        } else {
            push_char(out, c);
        }
        proof {
            assert(out@ =~= old(out)@ + seq!['"'] + esc(s@.subrange(0, i + 1)));
        }
        i += 1;
    }
    push_char(out, '"');
    proof {
        assert(s@.subrange(0, n as int) =~= s@);
        assert(out@ =~= old(out)@ + enc_string(s@));
    }
}

/// Appends the decimal form of `n`.
fn encode_u64_into(out: &mut String, n: u64)
    ensures
        final(out)@ == old(out)@ + dec_of(n as nat),
{
    let d = crate::text::u64_to_string(n);
    out.append(d.as_str());
}

/// Appends the decimal form of `v`, minus sign included.
fn encode_i64_into(out: &mut String, v: i64)
    ensures
        final(out)@ == old(out)@ + dec_of_int(v as int),
{
    let d = crate::text::i64_to_string(v);
    out.append(d.as_str());
}

/// Appends `true` or `false`.
fn encode_bool_into(out: &mut String, b: bool)
    ensures
        final(out)@ == old(out)@ + enc_bool(b),
{
    if b {
        out.append("true");
    } else {
        out.append("false");
    }
}

/// Appends `null` or a number.
fn encode_opt_i64_into(out: &mut String, o: Option<i64>)
    ensures
        final(out)@ == old(out)@ + enc_opt_i64(match o {
            Some(v) => Some(v as int),
            None => None,
        }),
{
    match o {
        Some(v) => encode_i64_into(out, v),
        None => out.append("null"),
    }
}

/// Appends `null` or a quoted string.
fn encode_opt_string_into(out: &mut String, o: &Option<String>)
    ensures
        final(out)@ == old(out)@ + enc_opt_string(opt_str_view(*o)),
{
    match o {
        Some(s) => encode_string_into(out, s.as_str()),
        None => out.append("null"),
    }
}

/// Appends one stored reminder.
#[verifier::rlimit(100)]
#[verifier::spinoff_prover]
fn encode_rem_into(out: &mut String, r: &Reminder)
    ensures
        final(out)@ == old(out)@ + enc_rem(r@),
{
    push_char(out, '[');
    encode_i64_into(out, r.reminder_time);
    push_char(out, ',');
    let code: u64 = match r.reminder_type {
        ReminderType::Email => 0,
        ReminderType::Notification => 1,
        ReminderType::Sms => 2,
        ReminderType::Both => 3,
        ReminderType::All => 4,
    };
    assert(code as nat == rtype_code(r.reminder_type));
    encode_u64_into(out, code);
    push_char(out, ',');
    encode_bool_into(out, r.sent);
    push_char(out, ',');
    encode_u64_into(out, r.retry_count as u64);
    push_char(out, ',');
    encode_opt_i64_into(out, r.last_attempt);
    push_char(out, ',');
    encode_opt_string_into(out, &r.error_message);
    push_char(out, ']');
    proof {
        assert(out@ =~= old(out)@ + enc_rem(r@));
    }
}

/// Appends the stored reminders from `k` on, comma-separated.
fn encode_rem_items_into(out: &mut String, v: &Vec<Reminder>, k: usize)
    requires
        k < v@.len(),
    ensures
        final(out)@ == old(out)@ + enc_rem_items(rems_view(v@), k as int),
    decreases v@.len() - k,
{
    encode_rem_into(out, &v[k]);
    if k < v.len() - 1 {
        push_char(out, ',');
        encode_rem_items_into(out, v, k + 1);
        proof {
            assert(out@ =~= old(out)@ + enc_rem_items(rems_view(v@), k as int));
        }
    } else {
        proof {
            assert(out@ =~= old(out)@ + enc_rem_items(rems_view(v@), k as int));
        }
    }
}

/// Appends a stored reminder list.
fn encode_rems_into(out: &mut String, v: &Vec<Reminder>)
    ensures
        final(out)@ == old(out)@ + enc_rems(rems_view(v@)),
{
    push_char(out, '[');
    if v.len() == 0 {
        push_char(out, ']');
        proof {
            assert(out@ =~= old(out)@ + enc_rems(rems_view(v@)));
        }
    } else {
        encode_rem_items_into(out, v, 0);
        push_char(out, ']');
        proof {
            assert(out@ =~= old(out)@ + enc_rems(rems_view(v@)));
        }
    }
}

/// Appends the stored tags from `k` on, comma-separated.
fn encode_tag_items_into(out: &mut String, v: &Vec<String>, k: usize)
    requires
        k < v@.len(),
    ensures
        final(out)@ == old(out)@ + enc_tag_items(tags_view(v@), k as int),
    decreases v@.len() - k,
{
    encode_string_into(out, v[k].as_str());
    if k < v.len() - 1 {
        push_char(out, ',');
        encode_tag_items_into(out, v, k + 1);
        proof {
            assert(out@ =~= old(out)@ + enc_tag_items(tags_view(v@), k as int));
        }
    } else {
        proof {
            assert(out@ =~= old(out)@ + enc_tag_items(tags_view(v@), k as int));
        }
    }
}

/// Appends a stored tag list.
fn encode_tags_into(out: &mut String, v: &Vec<String>)
    ensures
        final(out)@ == old(out)@ + enc_tags(tags_view(v@)),
{
    push_char(out, '[');
    if v.len() == 0 {
        push_char(out, ']');
        proof {
            assert(out@ =~= old(out)@ + enc_tags(tags_view(v@)));
        }
    } else {
        encode_tag_items_into(out, v, 0);
        push_char(out, ']');
        proof {
            assert(out@ =~= old(out)@ + enc_tags(tags_view(v@)));
        }
    }
}

/// Appends one stored task.
fn encode_task_into(out: &mut String, t: &Task)
    ensures
        final(out)@ == old(out)@ + enc_task(t@),
{
    push_char(out, '[');
    let ghost mut acc: Seq<char> = seq!['['];
    proof {
        assert(out@ =~= old(out)@ + acc);
    }
    encode_u64_into(out, t.id as u64);
    proof {
        let prev = acc;
        acc = prev + dec_of(t@.id as nat);
        vstd::seq_lib::lemma_concat_associative(old(out)@, prev, dec_of(t@.id as nat));
        assert(out@ == old(out)@ + acc);
    }
    push_char(out, ',');
    proof {
        let prev = acc;
        acc = prev + seq![','];
        vstd::seq_lib::lemma_concat_associative(old(out)@, prev, seq![',']);
        assert(out@ == old(out)@ + acc);
    }
    encode_string_into(out, t.title.as_str());
    proof {
        let prev = acc;
        acc = prev + enc_string(t@.title);
        vstd::seq_lib::lemma_concat_associative(old(out)@, prev, enc_string(t@.title));
        assert(out@ == old(out)@ + acc);
    }
    push_char(out, ',');
    proof {
        let prev = acc;
        acc = prev + seq![','];
        vstd::seq_lib::lemma_concat_associative(old(out)@, prev, seq![',']);
        assert(out@ == old(out)@ + acc);
    }
    encode_string_into(out, t.description.as_str());
    proof {
        let prev = acc;
        acc = prev + enc_string(t@.description);
        vstd::seq_lib::lemma_concat_associative(old(out)@, prev, enc_string(t@.description));
        assert(out@ == old(out)@ + acc);
    }
    push_char(out, ',');
    proof {
        let prev = acc;
        acc = prev + seq![','];
        vstd::seq_lib::lemma_concat_associative(old(out)@, prev, seq![',']);
        assert(out@ == old(out)@ + acc);
    }
    encode_i64_into(out, t.due_date);
    proof {
        let prev = acc;
        acc = prev + dec_of_int(t@.due_date);
        vstd::seq_lib::lemma_concat_associative(old(out)@, prev, dec_of_int(t@.due_date));
        assert(out@ == old(out)@ + acc);
    }
    push_char(out, ',');
    proof {
        let prev = acc;
        acc = prev + seq![','];
        vstd::seq_lib::lemma_concat_associative(old(out)@, prev, seq![',']);
        assert(out@ == old(out)@ + acc);
    }
    let pc: u64 = match t.priority {
        TaskPriority::Low => 0,
        TaskPriority::Medium => 1,
        TaskPriority::High => 2,
        TaskPriority::Urgent => 3,
    };
    assert(pc as nat == priority_code(t.priority));
    encode_u64_into(out, pc);
    proof {
        let prev = acc;
        acc = prev + dec_of(priority_code(t@.priority));
        vstd::seq_lib::lemma_concat_associative(old(out)@, prev, dec_of(priority_code(t@.priority)));
        assert(out@ == old(out)@ + acc);
    }
    push_char(out, ',');
    proof {
        let prev = acc;
        acc = prev + seq![','];
        vstd::seq_lib::lemma_concat_associative(old(out)@, prev, seq![',']);
        assert(out@ == old(out)@ + acc);
    }
    let sc: u64 = match t.status {
        TaskStatus::Pending => 0,
        TaskStatus::InProgress => 1,
        TaskStatus::Completed => 2,
        TaskStatus::Cancelled => 3,
    };
    assert(sc as nat == status_code(t.status));
    encode_u64_into(out, sc);
    proof {
        let prev = acc;
        acc = prev + dec_of(status_code(t@.status));
        vstd::seq_lib::lemma_concat_associative(old(out)@, prev, dec_of(status_code(t@.status)));
        assert(out@ == old(out)@ + acc);
    }
    push_char(out, ',');
    proof {
        let prev = acc;
        acc = prev + seq![','];
        vstd::seq_lib::lemma_concat_associative(old(out)@, prev, seq![',']);
        assert(out@ == old(out)@ + acc);
    }
    encode_i64_into(out, t.created_at);
    proof {
        let prev = acc;
        acc = prev + dec_of_int(t@.created_at);
        vstd::seq_lib::lemma_concat_associative(old(out)@, prev, dec_of_int(t@.created_at));
        assert(out@ == old(out)@ + acc);
    }
    push_char(out, ',');
    proof {
        let prev = acc;
        acc = prev + seq![','];
        vstd::seq_lib::lemma_concat_associative(old(out)@, prev, seq![',']);
        assert(out@ == old(out)@ + acc);
    }
    encode_rems_into(out, &t.reminders);
    proof {
        assert(rems_view(t.reminders@) =~= t@.reminders);
        let prev = acc;
        acc = prev + enc_rems(t@.reminders);
        vstd::seq_lib::lemma_concat_associative(old(out)@, prev, enc_rems(t@.reminders));
        assert(out@ == old(out)@ + acc);
    }
    push_char(out, ',');
    proof {
        let prev = acc;
        acc = prev + seq![','];
        vstd::seq_lib::lemma_concat_associative(old(out)@, prev, seq![',']);
        assert(out@ == old(out)@ + acc);
    }
    encode_tags_into(out, &t.tags);
    proof {
        assert(tags_view(t.tags@) =~= t@.tags);
        let prev = acc;
        acc = prev + enc_tags(t@.tags);
        vstd::seq_lib::lemma_concat_associative(old(out)@, prev, enc_tags(t@.tags));
        assert(out@ == old(out)@ + acc);
    }
    push_char(out, ']');
    proof {
        let prev = acc;
        acc = prev + seq![']'];
        vstd::seq_lib::lemma_concat_associative(old(out)@, prev, seq![']']);
        assert(out@ == old(out)@ + acc);
        assert(acc == enc_task(t@));
    }
}

/// Appends the stored tasks from `k` on, comma-separated.
fn encode_task_items_into(out: &mut String, v: &Vec<Task>, k: usize)
    requires
        k < v@.len(),
    ensures
        final(out)@ == old(out)@ + enc_task_items(tasks_view(v@), k as int),
    decreases v@.len() - k,
{
    encode_task_into(out, &v[k]);
    if k < v.len() - 1 {
        push_char(out, ',');
        encode_task_items_into(out, v, k + 1);
        proof {
            assert(out@ =~= old(out)@ + enc_task_items(tasks_view(v@), k as int));
        }
    } else {
        proof {
            assert(out@ =~= old(out)@ + enc_task_items(tasks_view(v@), k as int));
        }
    }
}

// ------------------------------------------------------------------
// The round trip: parsing the encoder's output gives the store back
// ------------------------------------------------------------------

/// A match of a concatenation is a match of each part, in place.
proof fn lemma_matches_split(s: Seq<char>, a: Seq<char>, b: Seq<char>, i: int)
    requires
        matches_at(s, a + b, i),
    ensures
        matches_at(s, a, i),
        matches_at(s, b, i + a.len()),
{
    assert forall|j: int| 0 <= j < a.len() implies s[i + j] == a[j] by {
        assert((a + b)[j] == a[j]);
        assert(s[i + j] == (a + b)[j]);
    }
    assert forall|j: int| 0 <= j < b.len() implies s[i + a.len() + j] == b[j] by {
        assert((a + b)[a.len() + j] == b[j]);
        assert(s[i + (a.len() + j)] == (a + b)[a.len() + j]);
    }
}

/// Every character of a decimal rendering is a digit.
proof fn lemma_dec_digits(n: nat)
    ensures
        dec_of(n).len() >= 1,
        forall|k: int| 0 <= k < dec_of(n).len() ==> is_digit_char(#[trigger] dec_of(n)[k]),
    decreases n,
{
    if n < 10 {
        assert(dec_of(n)[0] == crate::text::digit_char(n));
        assert(((n + 48) as u8) as char as u32 == n + 48);
    } else {
        lemma_dec_digits(n / 10);
        assert(dec_of(n).last() == crate::text::digit_char(n % 10));
        assert((((n % 10) + 48) as u8) as char as u32 == (n % 10) + 48);
        assert forall|k: int| 0 <= k < dec_of(n).len()
            implies is_digit_char(#[trigger] dec_of(n)[k]) by {
            if k < dec_of(n / 10).len() {
                assert(dec_of(n)[k] == dec_of(n / 10)[k]);
            }
        }
    }
}

/// A digit run bounded on the right ends exactly at the bound.
proof fn lemma_digits_end_at(s: Seq<char>, i: int, j: int)
    requires
        0 <= i <= j <= s.len(),
        forall|k: int| i <= k < j ==> is_digit_char(#[trigger] s[k]),
        j == s.len() || !is_digit_char(s[j]),
    ensures
        digits_end(s, i) == j,
    decreases j - i,
{
    if i < j {
        lemma_digits_end_at(s, i + 1, j);
    }
}

/// The digit value of a window depends only on its characters.
proof fn lemma_val_of_window(s1: Seq<char>, i1: int, s2: Seq<char>, i2: int, n: int)
    requires
        n >= 0,
        forall|k: int| 0 <= k < n ==> s1[i1 + k] == #[trigger] s2[i2 + k],
    ensures
        val_of(s1, i1, i1 + n) == val_of(s2, i2, i2 + n),
    decreases n,
{
    if n > 0 {
        lemma_val_of_window(s1, i1, s2, i2, n - 1);
        assert(s1[i1 + (n - 1)] == s2[i2 + (n - 1)]);
    }
}

/// Reading back the decimal rendering of `n` yields `n`.
proof fn lemma_val_of_dec(n: nat)
    ensures
        val_of(dec_of(n), 0, dec_of(n).len() as int) == n,
    decreases n,
{
    if n < 10 {
        assert(((n + 48) as u8) as char as u32 == n + 48);
        assert(dec_of(n)[0] == crate::text::digit_char(n));
        assert(val_of(dec_of(n), 0, 0) == 0);
        assert(val_of(dec_of(n), 0, 1) == crate::text::digit_val(dec_of(n)[0]));
    } else {
        lemma_val_of_dec(n / 10);
        let d = dec_of(n);
        let dp = dec_of(n / 10);
        let m = dp.len() as int;
        assert(d == dp.push(crate::text::digit_char(n % 10)));
        assert(forall|k: int| 0 <= k < m ==> d[0 + k] == #[trigger] dp[0 + k]);
        lemma_val_of_window(d, 0, dp, 0, m);
        assert(val_of(d, 0, m + 1) == val_of(d, 0, m) * 10 + crate::text::digit_val(d[m]));
        assert(d[m] == crate::text::digit_char(n % 10));
        assert((((n % 10) + 48) as u8) as char as u32 == (n % 10) + 48);
        assert(crate::text::digit_val(crate::text::digit_char(n % 10)) == n % 10);
        assert(val_of(d, 0, m + 1) == (n / 10) * 10 + n % 10);
        assert((n / 10) * 10 + n % 10 == n) by (nonlinear_arith);
    }
}

/// A digit is not a minus sign, a letter, or a bracket.
proof fn lemma_digit_is_plain(c: char)
    requires
        is_digit_char(c),
    ensures
        c != '-' && c != 'n' && c != 't' && c != 'f' && c != '"' && c != '[' && c != ']'
            && c != ',',
{
}

/// Parsing at the decimal rendering of `n` yields `n`, when no digit
/// follows it.
proof fn lemma_p_nat_at(n: nat, s: Seq<char>, i: int)
    requires
        matches_at(s, dec_of(n), i),
        i + dec_of(n).len() == s.len() || !is_digit_char(s[i + dec_of(n).len()]),
    ensures
        p_nat(s, i) == Some((n, i + dec_of(n).len())),
{
    let d = dec_of(n);
    lemma_dec_digits(n);
    assert forall|k: int| i <= k < i + d.len() implies is_digit_char(#[trigger] s[k]) by {
        assert(s[i + (k - i)] == d[k - i]);
    }
    lemma_digits_end_at(s, i, i + d.len());
    assert(forall|k: int| 0 <= k < d.len() ==> s[i + k] == #[trigger] d[0 + k]);
    lemma_val_of_window(s, i, d, 0, d.len() as int);
    lemma_val_of_dec(n);
}

/// Parsing at the decimal rendering of a `u32` yields it back.
proof fn lemma_p_u32_at(v: u32, s: Seq<char>, i: int)
    requires
        matches_at(s, dec_of(v as nat), i),
        i + dec_of(v as nat).len() == s.len() || !is_digit_char(s[i + dec_of(v as nat).len()]),
    ensures
        p_u32(s, i) == Some((v, i + dec_of(v as nat).len())),
{
    lemma_p_nat_at(v as nat, s, i);
}

/// Parsing at the decimal rendering of an `i64` yields it back.
proof fn lemma_p_i64_at(v: i64, s: Seq<char>, i: int)
    requires
        matches_at(s, dec_of_int(v as int), i),
        i + dec_of_int(v as int).len() == s.len()
            || !is_digit_char(s[i + dec_of_int(v as int).len()]),
    ensures
        p_i64(s, i) == Some((v, i + dec_of_int(v as int).len())),
{
    if v >= 0 {
        lemma_p_nat_at(v as nat, s, i);
        lemma_dec_digits(v as nat);
        assert(s[i + 0] == dec_of(v as nat)[0]);
        lemma_digit_is_plain(s[i]);
    } else {
        let m = (-(v as int)) as nat;
        assert(dec_of_int(v as int) == seq!['-'] + dec_of(m));
        lemma_matches_split(s, seq!['-'], dec_of(m), i);
        assert(s[i + 0] == (seq!['-'])[0]);
        lemma_p_nat_at(m, s, i + 1);
        assert(m <= 0x8000_0000_0000_0000);
        assert((-(m as int)) as i64 == v);
    }
}

/// Parsing at the rendering of a boolean yields it back.
proof fn lemma_p_bool_at(b: bool, s: Seq<char>, i: int)
    requires
        matches_at(s, enc_bool(b), i),
    ensures
        p_bool(s, i) == Some((b, i + enc_bool(b).len())),
{
    reveal_strlit("true");
    reveal_strlit("false");
    if b {
        assert(matches_at(s, "true"@, i));
    } else {
        assert(s[i + 0] == "false"@[0]);
        if matches_at(s, "true"@, i) {
            assert(s[i + 0] == "true"@[0]);
        }
        assert(!matches_at(s, "true"@, i));
        assert(matches_at(s, "false"@, i));
    }
}

/// Parsing at the rendering of an optional number yields it back, when
/// no digit follows it.
proof fn lemma_p_opt_i64_at(o: Option<i64>, s: Seq<char>, i: int)
    requires
        matches_at(s, enc_opt_i64(match o {
            Some(v) => Some(v as int),
            None => None,
        }), i),
        i + enc_opt_i64(match o {
            Some(v) => Some(v as int),
            None => None,
        }).len() == s.len() || !is_digit_char(s[i + enc_opt_i64(match o {
            Some(v) => Some(v as int),
            None => None,
        }).len()]),
    ensures
        p_opt_i64(s, i) == Some((o, i + enc_opt_i64(match o {
            Some(v) => Some(v as int),
            None => None,
        }).len())),
{
    reveal_strlit("null");
    match o {
        None => {
            assert(matches_at(s, "null"@, i));
        },
        Some(v) => {
            if v >= 0 {
                lemma_dec_digits(v as nat);
                assert(s[i + 0] == dec_of(v as nat)[0]);
                lemma_digit_is_plain(s[i]);
            } else {
                assert(s[i + 0] == (seq!['-'] + dec_of((-(v as int)) as nat))[0]);
                assert(s[i] == '-');
            }
            if matches_at(s, "null"@, i) {
                assert(s[i + 0] == "null"@[0]);
            }
            assert(!matches_at(s, "null"@, i));
            lemma_p_i64_at(v, s, i);
        },
    }
}

/// Parsing just after the opening quote of an escaped string yields its
/// characters back, stopping past the closing quote.
proof fn lemma_p_str_body_at(v: Seq<char>, s: Seq<char>, i: int)
    requires
        matches_at(s, esc(v) + seq!['"'], i),
    ensures
        p_str_body(s, i) == Some((v, i + esc(v).len() + 1)),
    decreases v.len(),
{
    if v.len() == 0 {
        assert(s[i + 0] == (esc(v) + seq!['"'])[0]);
        assert(s[i] == '"');
    } else {
        let v0 = v[0];
        let rest = v.drop_first();
        assert(esc(v) == esc_char(v0) + esc(rest));
        assert((esc_char(v0) + esc(rest)) + seq!['"'] =~= esc_char(v0) + (esc(rest)
            + seq!['"']));
        lemma_matches_split(s, esc_char(v0), esc(rest) + seq!['"'], i);
        lemma_p_str_body_at(rest, s, i + esc_char(v0).len());
        if v0 == '"' || v0 == '\\' {
            assert(s[i + 0] == (esc_char(v0))[0]);
            assert(s[i + 1] == (esc_char(v0))[1]);
            assert(s[i] == '\\' && s[i + 1] == v0);
            assert(i + 2 <= s.len());
            assert(p_str_body(s, i) == Some((seq![v0] + rest, i + esc(v).len() + 1)));
            assert(seq![v0] + rest =~= v);
        } else {
            assert(s[i + 0] == (esc_char(v0))[0]);
            assert(s[i] == v0);
            assert(p_str_body(s, i) == Some((seq![v0] + rest, i + esc(v).len() + 1)));
            assert(seq![v0] + rest =~= v);
        }
    }
}

/// Parsing at the rendering of a string yields it back.
proof fn lemma_p_string_at(v: Seq<char>, s: Seq<char>, i: int)
    requires
        matches_at(s, enc_string(v), i),
    ensures
        p_string(s, i) == Some((v, i + enc_string(v).len())),
{
    assert(enc_string(v) =~= seq!['"'] + (esc(v) + seq!['"']));
    lemma_matches_split(s, seq!['"'], esc(v) + seq!['"'], i);
    assert(s[i + 0] == (seq!['"'])[0]);
    lemma_p_str_body_at(v, s, i + 1);
}

/// Parsing at the rendering of an optional string yields it back.
proof fn lemma_p_opt_string_at(o: Option<Seq<char>>, s: Seq<char>, i: int)
    requires
        matches_at(s, enc_opt_string(o), i),
    ensures
        p_opt_string(s, i) == Some((o, i + enc_opt_string(o).len())),
{
    reveal_strlit("null");
    match o {
        None => {
            assert(matches_at(s, "null"@, i));
        },
        Some(v) => {
            assert(s[i + 0] == enc_string(v)[0]);
            assert(s[i] == '"');
            if matches_at(s, "null"@, i) {
                assert(s[i + 0] == "null"@[0]);
            }
            assert(!matches_at(s, "null"@, i));
            lemma_p_string_at(v, s, i);
        },
    }
}

/// Parsing at the rendering of a bounded reminder yields it back.
#[verifier::rlimit(100)]
#[verifier::spinoff_prover]
proof fn lemma_p_rem_at(r: ReminderModel, s: Seq<char>, i: int)
    requires
        reminder_bounded(r),
        matches_at(s, enc_rem(r), i),
    ensures
        p_rem(s, i) == Some((r, i + enc_rem(r).len())),
{
    let a1 = dec_of_int(r.reminder_time);
    let a3 = dec_of(rtype_code(r.reminder_type));
    let a5 = enc_bool(r.sent);
    let a7 = dec_of(r.retry_count as nat);
    let a9 = enc_opt_i64(r.last_attempt);
    let a11 = enc_opt_string(r.error_message);
    let c12 = seq!['['] + a1 + seq![','] + a3 + seq![','] + a5 + seq![','] + a7 + seq![','] + a9
        + seq![','];
    assert(enc_rem(r) == (c12 + a11) + seq![']']);
    lemma_matches_split(s, c12 + a11, seq![']'], i);
    lemma_matches_split(s, c12, a11, i);
    let c11 = seq!['['] + a1 + seq![','] + a3 + seq![','] + a5 + seq![','] + a7 + seq![','] + a9;
    assert(c12 == c11 + seq![',']);
    lemma_matches_split(s, c11, seq![','], i);
    let c10 = seq!['['] + a1 + seq![','] + a3 + seq![','] + a5 + seq![','] + a7 + seq![','];
    assert(c11 == c10 + a9);
    lemma_matches_split(s, c10, a9, i);
    let c9 = seq!['['] + a1 + seq![','] + a3 + seq![','] + a5 + seq![','] + a7;
    assert(c10 == c9 + seq![',']);
    lemma_matches_split(s, c9, seq![','], i);
    let c8 = seq!['['] + a1 + seq![','] + a3 + seq![','] + a5 + seq![','];
    assert(c9 == c8 + a7);
    lemma_matches_split(s, c8, a7, i);
    let c7 = seq!['['] + a1 + seq![','] + a3 + seq![','] + a5;
    assert(c8 == c7 + seq![',']);
    lemma_matches_split(s, c7, seq![','], i);
    let c6 = seq!['['] + a1 + seq![','] + a3 + seq![','];
    assert(c7 == c6 + a5);
    lemma_matches_split(s, c6, a5, i);
    let c5 = seq!['['] + a1 + seq![','] + a3;
    assert(c6 == c5 + seq![',']);
    lemma_matches_split(s, c5, seq![','], i);
    let c4 = seq!['['] + a1 + seq![','];
    assert(c5 == c4 + a3);
    lemma_matches_split(s, c4, a3, i);
    let c3 = seq!['['] + a1;
    assert(c4 == c3 + seq![',']);
    lemma_matches_split(s, c3, seq![','], i);
    lemma_matches_split(s, seq!['['], a1, i);

    // the opening bracket and every separator
    assert(s[i + 0] == (seq!['['])[0]);
    let o1 = i + 1;
    let o2 = o1 + a1.len();
    let o3 = o2 + 1;
    let o4 = o3 + a3.len();
    let o5 = o4 + 1;
    let o6 = o5 + a5.len();
    let o7 = o6 + 1;
    let o8 = o7 + a7.len();
    let o9 = o8 + 1;
    let o10 = o9 + a9.len();
    let o11 = o10 + 1;
    let o12 = o11 + a11.len();
    assert(s[o2 + 0] == (seq![','])[0]);
    assert(s[o4 + 0] == (seq![','])[0]);
    assert(s[o6 + 0] == (seq![','])[0]);
    assert(s[o8 + 0] == (seq![','])[0]);
    assert(s[o10 + 0] == (seq![','])[0]);
    assert(s[o12 + 0] == (seq![']'])[0]);
    assert(!is_digit_char(','));

    // the numeric and boolean fields, one by one
    let tv: i64 = r.reminder_time as i64;
    assert(tv as int == r.reminder_time);
    lemma_p_i64_at(tv, s, o1);
    let cv: u32 = rtype_code(r.reminder_type) as u32;
    assert(cv as nat == rtype_code(r.reminder_type));
    lemma_p_u32_at(cv, s, o3);
    assert(code_rtype(cv as nat) == Some(r.reminder_type));
    lemma_p_bool_at(r.sent, s, o5);
    let rv: u32 = r.retry_count as u32;
    assert(rv as nat == r.retry_count as nat);
    lemma_p_u32_at(rv, s, o7);
    let la: Option<i64> = match r.last_attempt {
        Some(t) => Some(t as i64),
        None => None,
    };
    assert(enc_opt_i64(match la {
        Some(v) => Some(v as int),
        None => None,
    }) == a9);
    lemma_p_opt_i64_at(la, s, o9);
    lemma_p_opt_string_at(r.error_message, s, o11);

    assert(p_rem(s, i) == Some((ReminderModel {
        reminder_time: tv as int,
        reminder_type: r.reminder_type,
        sent: r.sent,
        retry_count: rv as int,
        last_attempt: match la {
            Some(v) => Some(v as int),
            None => None,
        },
        error_message: r.error_message,
    }, o12 + 1)));
    assert((match la {
        Some(v) => Some(v as int),
        None => None,
    }) == r.last_attempt);
}

/// Parsing at the rendering of the reminders from `k` on (with the
/// list's closing bracket after them) yields them back.
proof fn lemma_p_rem_items_at(rs: Seq<ReminderModel>, k: int, s: Seq<char>, i: int)
    requires
        forall|j: int| 0 <= j < rs.len() ==> reminder_bounded(#[trigger] rs[j]),
        0 <= k < rs.len(),
        matches_at(s, enc_rem_items(rs, k) + seq![']'], i),
    ensures
        p_rem_items(s, i) == Some((
            rs.subrange(k, rs.len() as int),
            i + enc_rem_items(rs, k).len() + 1,
        )),
    decreases rs.len() - k,
{
    if k == rs.len() - 1 {
        assert(enc_rem_items(rs, k) == enc_rem(rs[k]));
        lemma_matches_split(s, enc_rem(rs[k]), seq![']'], i);
        lemma_p_rem_at(rs[k], s, i);
        let j = i + enc_rem(rs[k]).len();
        assert(s[j + 0] == (seq![']'])[0]);
        assert(seq![rs[k]] =~= rs.subrange(k, rs.len() as int));
    } else {
        let a = enc_rem(rs[k]);
        let rest = enc_rem_items(rs, k + 1);
        assert(enc_rem_items(rs, k) == (a + seq![',']) + rest);
        assert(((a + seq![',']) + rest) + seq![']'] =~= a + (seq![','] + (rest + seq![']'])));
        lemma_matches_split(s, a, seq![','] + (rest + seq![']']), i);
        lemma_matches_split(s, seq![','], rest + seq![']'], i + a.len());
        lemma_p_rem_at(rs[k], s, i);
        let j = i + a.len();
        assert(s[j + 0] == (seq![','])[0]);
        lemma_p_rem_items_at(rs, k + 1, s, j + 1);
        assert(seq![rs[k]] + rs.subrange(k + 1, rs.len() as int) =~= rs.subrange(
            k,
            rs.len() as int,
        ));
    }
}

/// Parsing at the rendering of a reminder list yields it back.
proof fn lemma_p_rems_at(rs: Seq<ReminderModel>, s: Seq<char>, i: int)
    requires
        forall|j: int| 0 <= j < rs.len() ==> reminder_bounded(#[trigger] rs[j]),
        matches_at(s, enc_rems(rs), i),
    ensures
        p_rems(s, i) == Some((rs, i + enc_rems(rs).len())),
{
    if rs.len() == 0 {
        assert(s[i + 0] == (seq!['[', ']'])[0]);
        assert(s[i + 1] == (seq!['[', ']'])[1]);
        assert(rs =~= Seq::<ReminderModel>::empty());
    } else {
        let items = enc_rem_items(rs, 0);
        assert(enc_rems(rs) == (seq!['['] + items) + seq![']']);
        assert((seq!['['] + items) + seq![']'] =~= seq!['['] + (items + seq![']']));
        lemma_matches_split(s, seq!['['], items + seq![']'], i);
        assert(s[i + 0] == (seq!['['])[0]);
        lemma_p_rem_items_at(rs, 0, s, i + 1);
        assert(s[(i + 1) + 0] == (items + seq![']'])[0]);
        assert(items[0] == enc_rem(rs[0])[0]);
        assert(enc_rem(rs[0])[0] == '[');
        assert(rs.subrange(0, rs.len() as int) =~= rs);
    }
}

/// Parsing at the rendering of the tags from `k` on (with the list's
/// closing bracket after them) yields them back.
proof fn lemma_p_tag_items_at(tags: Seq<Seq<char>>, k: int, s: Seq<char>, i: int)
    requires
        0 <= k < tags.len(),
        matches_at(s, enc_tag_items(tags, k) + seq![']'], i),
    ensures
        p_tag_items(s, i) == Some((
            tags.subrange(k, tags.len() as int),
            i + enc_tag_items(tags, k).len() + 1,
        )),
    decreases tags.len() - k,
{
    if k == tags.len() - 1 {
        assert(enc_tag_items(tags, k) == enc_string(tags[k]));
        lemma_matches_split(s, enc_string(tags[k]), seq![']'], i);
        lemma_p_string_at(tags[k], s, i);
        let j = i + enc_string(tags[k]).len();
        assert(s[j + 0] == (seq![']'])[0]);
        assert(seq![tags[k]] =~= tags.subrange(k, tags.len() as int));
    } else {
        let a = enc_string(tags[k]);
        let rest = enc_tag_items(tags, k + 1);
        assert(enc_tag_items(tags, k) == (a + seq![',']) + rest);
        assert(((a + seq![',']) + rest) + seq![']'] =~= a + (seq![','] + (rest + seq![']'])));
        lemma_matches_split(s, a, seq![','] + (rest + seq![']']), i);
        lemma_matches_split(s, seq![','], rest + seq![']'], i + a.len());
        lemma_p_string_at(tags[k], s, i);
        let j = i + a.len();
        assert(s[j + 0] == (seq![','])[0]);
        lemma_p_tag_items_at(tags, k + 1, s, j + 1);
        assert(seq![tags[k]] + tags.subrange(k + 1, tags.len() as int) =~= tags.subrange(
            k,
            tags.len() as int,
        ));
    }
}

/// Parsing at the rendering of a tag list yields it back.
proof fn lemma_p_tags_at(tags: Seq<Seq<char>>, s: Seq<char>, i: int)
    requires
        matches_at(s, enc_tags(tags), i),
    ensures
        p_tags(s, i) == Some((tags, i + enc_tags(tags).len())),
{
    if tags.len() == 0 {
        assert(s[i + 0] == (seq!['[', ']'])[0]);
        assert(s[i + 1] == (seq!['[', ']'])[1]);
        assert(tags =~= Seq::<Seq<char>>::empty());
    } else {
        let items = enc_tag_items(tags, 0);
        assert(enc_tags(tags) == (seq!['['] + items) + seq![']']);
        assert((seq!['['] + items) + seq![']'] =~= seq!['['] + (items + seq![']']));
        lemma_matches_split(s, seq!['['], items + seq![']'], i);
        assert(s[i + 0] == (seq!['['])[0]);
        lemma_p_tag_items_at(tags, 0, s, i + 1);
        assert(s[(i + 1) + 0] == (items + seq![']'])[0]);
        assert(items[0] == enc_string(tags[0])[0]);
        assert(enc_string(tags[0])[0] == '"');
        assert(tags.subrange(0, tags.len() as int) =~= tags);
    }
}

/// Parsing at the rendering of a bounded task yields it back.
#[verifier::rlimit(100)]
#[verifier::spinoff_prover]
proof fn lemma_p_task_at(t: TaskModel, s: Seq<char>, i: int)
    requires
        task_bounded(t),
        matches_at(s, enc_task(t), i),
    ensures
        p_task(s, i) == Some((t, i + enc_task(t).len())),
{
    let a1 = dec_of(t.id as nat);
    let a3 = enc_string(t.title);
    let a5 = enc_string(t.description);
    let a7 = dec_of_int(t.due_date);
    let a9 = dec_of(priority_code(t.priority));
    let a11 = dec_of(status_code(t.status));
    let a13 = dec_of_int(t.created_at);
    let a15 = enc_rems(t.reminders);
    let a17 = enc_tags(t.tags);
    let c18 = seq!['['] + a1 + seq![','] + a3 + seq![','] + a5 + seq![','] + a7 + seq![','] + a9
        + seq![','] + a11 + seq![','] + a13 + seq![','] + a15 + seq![','];
    assert(enc_task(t) == (c18 + a17) + seq![']']);
    lemma_matches_split(s, c18 + a17, seq![']'], i);
    lemma_matches_split(s, c18, a17, i);
    let c17 = seq!['['] + a1 + seq![','] + a3 + seq![','] + a5 + seq![','] + a7 + seq![','] + a9
        + seq![','] + a11 + seq![','] + a13 + seq![','] + a15;
    assert(c18 == c17 + seq![',']);
    lemma_matches_split(s, c17, seq![','], i);
    let c16 = seq!['['] + a1 + seq![','] + a3 + seq![','] + a5 + seq![','] + a7 + seq![','] + a9
        + seq![','] + a11 + seq![','] + a13 + seq![','];
    assert(c17 == c16 + a15);
    lemma_matches_split(s, c16, a15, i);
    let c15 = seq!['['] + a1 + seq![','] + a3 + seq![','] + a5 + seq![','] + a7 + seq![','] + a9
        + seq![','] + a11 + seq![','] + a13;
    assert(c16 == c15 + seq![',']);
    lemma_matches_split(s, c15, seq![','], i);
    let c14 = seq!['['] + a1 + seq![','] + a3 + seq![','] + a5 + seq![','] + a7 + seq![','] + a9
        + seq![','] + a11 + seq![','];
    assert(c15 == c14 + a13);
    lemma_matches_split(s, c14, a13, i);
    let c13 = seq!['['] + a1 + seq![','] + a3 + seq![','] + a5 + seq![','] + a7 + seq![','] + a9
        + seq![','] + a11;
    assert(c14 == c13 + seq![',']);
    lemma_matches_split(s, c13, seq![','], i);
    let c12 = seq!['['] + a1 + seq![','] + a3 + seq![','] + a5 + seq![','] + a7 + seq![','] + a9
        + seq![','];
    assert(c13 == c12 + a11);
    lemma_matches_split(s, c12, a11, i);
    let c11 = seq!['['] + a1 + seq![','] + a3 + seq![','] + a5 + seq![','] + a7 + seq![','] + a9;
    assert(c12 == c11 + seq![',']);
    lemma_matches_split(s, c11, seq![','], i);
    let c10 = seq!['['] + a1 + seq![','] + a3 + seq![','] + a5 + seq![','] + a7 + seq![','];
    assert(c11 == c10 + a9);
    lemma_matches_split(s, c10, a9, i);
    let c9 = seq!['['] + a1 + seq![','] + a3 + seq![','] + a5 + seq![','] + a7;
    assert(c10 == c9 + seq![',']);
    lemma_matches_split(s, c9, seq![','], i);
    let c8 = seq!['['] + a1 + seq![','] + a3 + seq![','] + a5 + seq![','];
    assert(c9 == c8 + a7);
    lemma_matches_split(s, c8, a7, i);
    let c7 = seq!['['] + a1 + seq![','] + a3 + seq![','] + a5;
    assert(c8 == c7 + seq![',']);
    lemma_matches_split(s, c7, seq![','], i);
    let c6 = seq!['['] + a1 + seq![','] + a3 + seq![','];
    assert(c7 == c6 + a5);
    lemma_matches_split(s, c6, a5, i);
    let c5 = seq!['['] + a1 + seq![','] + a3;
    assert(c6 == c5 + seq![',']);
    lemma_matches_split(s, c5, seq![','], i);
    let c4 = seq!['['] + a1 + seq![','];
    assert(c5 == c4 + a3);
    lemma_matches_split(s, c4, a3, i);
    let c3 = seq!['['] + a1;
    assert(c4 == c3 + seq![',']);
    lemma_matches_split(s, c3, seq![','], i);
    lemma_matches_split(s, seq!['['], a1, i);

    assert(s[i + 0] == (seq!['['])[0]);
    let o1 = i + 1;
    let o2 = o1 + a1.len();
    let o3 = o2 + 1;
    let o4 = o3 + a3.len();
    let o5 = o4 + 1;
    let o6 = o5 + a5.len();
    let o7 = o6 + 1;
    let o8 = o7 + a7.len();
    let o9 = o8 + 1;
    let o10 = o9 + a9.len();
    let o11 = o10 + 1;
    let o12 = o11 + a11.len();
    let o13 = o12 + 1;
    let o14 = o13 + a13.len();
    let o15 = o14 + 1;
    let o16 = o15 + a15.len();
    let o17 = o16 + 1;
    let o18 = o17 + a17.len();
    assert(s[o2 + 0] == (seq![','])[0]);
    assert(s[o4 + 0] == (seq![','])[0]);
    assert(s[o6 + 0] == (seq![','])[0]);
    assert(s[o8 + 0] == (seq![','])[0]);
    assert(s[o10 + 0] == (seq![','])[0]);
    assert(s[o12 + 0] == (seq![','])[0]);
    assert(s[o14 + 0] == (seq![','])[0]);
    assert(s[o16 + 0] == (seq![','])[0]);
    assert(s[o18 + 0] == (seq![']'])[0]);
    assert(!is_digit_char(','));

    lemma_p_u32_at(t.id, s, o1);
    lemma_p_string_at(t.title, s, o3);
    lemma_p_string_at(t.description, s, o5);
    let dv: i64 = t.due_date as i64;
    assert(dv as int == t.due_date);
    lemma_p_i64_at(dv, s, o7);
    let pv: u32 = priority_code(t.priority) as u32;
    assert(pv as nat == priority_code(t.priority));
    lemma_p_u32_at(pv, s, o9);
    assert(code_priority(pv as nat) == Some(t.priority));
    let sv: u32 = status_code(t.status) as u32;
    assert(sv as nat == status_code(t.status));
    lemma_p_u32_at(sv, s, o11);
    assert(code_status(sv as nat) == Some(t.status));
    let cv: i64 = t.created_at as i64;
    assert(cv as int == t.created_at);
    lemma_p_i64_at(cv, s, o13);
    lemma_p_rems_at(t.reminders, s, o15);
    lemma_p_tags_at(t.tags, s, o17);

    assert(p_task_tail(s, o13, t.id, t.title, t.description, dv, t.priority, t.status)
        == Some((TaskModel {
        id: t.id,
        title: t.title,
        description: t.description,
        due_date: dv as int,
        priority: t.priority,
        status: t.status,
        created_at: cv as int,
        reminders: t.reminders,
        tags: t.tags,
    }, o18 + 1)));
    assert(p_task(s, i) == Some((t, o18 + 1)));
}

/// Parsing at the rendering of the tasks from `k` on (with the list's
/// closing bracket after them) yields them back.
#[verifier::rlimit(100)]
#[verifier::spinoff_prover]
proof fn lemma_p_task_items_at(ts: Seq<TaskModel>, k: int, s: Seq<char>, i: int)
    requires
        tasks_bounded(ts),
        0 <= k < ts.len(),
        matches_at(s, enc_task_items(ts, k) + seq![']'], i),
    ensures
        p_task_items(s, i) == Some((
            ts.subrange(k, ts.len() as int),
            i + enc_task_items(ts, k).len() + 1,
        )),
    decreases ts.len() - k,
{
    if k == ts.len() - 1 {
        assert(enc_task_items(ts, k) == enc_task(ts[k]));
        lemma_matches_split(s, enc_task(ts[k]), seq![']'], i);
        lemma_p_task_at(ts[k], s, i);
        let j = i + enc_task(ts[k]).len();
        assert(s[j + 0] == (seq![']'])[0]);
        assert(seq![ts[k]] =~= ts.subrange(k, ts.len() as int));
    } else {
        let a = enc_task(ts[k]);
        let rest = enc_task_items(ts, k + 1);
        assert(enc_task_items(ts, k) == (a + seq![',']) + rest);
        assert(((a + seq![',']) + rest) + seq![']'] =~= a + (seq![','] + (rest + seq![']'])));
        lemma_matches_split(s, a, seq![','] + (rest + seq![']']), i);
        lemma_matches_split(s, seq![','], rest + seq![']'], i + a.len());
        lemma_p_task_at(ts[k], s, i);
        let j = i + a.len();
        assert(s[j + 0] == (seq![','])[0]);
        lemma_p_task_items_at(ts, k + 1, s, j + 1);
        assert(seq![ts[k]] + ts.subrange(k + 1, ts.len() as int) =~= ts.subrange(
            k,
            ts.len() as int,
        ));
    }
}

/// Parsing at the rendering of a task list yields it back.
#[verifier::rlimit(100)]
#[verifier::spinoff_prover]
proof fn lemma_p_task_list_at(ts: Seq<TaskModel>, s: Seq<char>, i: int)
    requires
        tasks_bounded(ts),
        matches_at(s, enc_task_list(ts), i),
    ensures
        p_task_list(s, i) == Some((ts, i + enc_task_list(ts).len())),
{
    if ts.len() == 0 {
        assert(s[i + 0] == (seq!['[', ']'])[0]);
        assert(s[i + 1] == (seq!['[', ']'])[1]);
        assert(ts =~= Seq::<TaskModel>::empty());
    } else {
        let items = enc_task_items(ts, 0);
        assert(enc_task_list(ts) == (seq!['['] + items) + seq![']']);
        assert((seq!['['] + items) + seq![']'] =~= seq!['['] + (items + seq![']']));
        lemma_matches_split(s, seq!['['], items + seq![']'], i);
        assert(s[i + 0] == (seq!['['])[0]);
        lemma_p_task_items_at(ts, 0, s, i + 1);
        assert(s[(i + 1) + 0] == (items + seq![']'])[0]);
        assert(items[0] == enc_task(ts[0])[0]);
        assert(enc_task(ts[0])[0] == '[');
        assert(ts.subrange(0, ts.len() as int) =~= ts);
    }
}

/// Law: round-trip persistence. Parsing the encoder's output gives back
/// exactly the encoded tasks and id counter, consuming the whole
/// document; with valid ids the parsed document also passes the load
/// validation.
#[verifier::rlimit(100)]
#[verifier::spinoff_prover]
pub proof fn lemma_store_round_trip(ts: Seq<TaskModel>, next_id: u32)
    requires
        tasks_bounded(ts),
    ensures
        p_store(enc_store(ts, next_id), 0) == Some((
            ts,
            next_id,
            enc_store(ts, next_id).len() as int,
        )),
        ids_ok(ts, next_id) ==> store_parse_ok(enc_store(ts, next_id)),
{
    let s = enc_store(ts, next_id);
    let tl = enc_task_list(ts);
    let nid = dec_of(next_id as nat);
    assert(s == ((seq!['['] + tl) + seq![',']) + (nid + seq![']'])) by {
        assert(s == seq!['['] + tl + seq![','] + nid + seq![']']);
        assert(seq!['['] + tl + seq![','] + nid + seq![']'] =~= ((seq!['['] + tl) + seq![','])
            + (nid + seq![']']));
    }
    assert(matches_at(s, s, 0)) by {
        assert(forall|j: int| 0 <= j < s.len() ==> s[0 + j] == #[trigger] s[j]);
    }
    lemma_matches_split(s, (seq!['['] + tl) + seq![','], nid + seq![']'], 0);
    lemma_matches_split(s, seq!['['] + tl, seq![','], 0);
    lemma_matches_split(s, seq!['['], tl, 0);
    lemma_matches_split(s, nid, seq![']'], 1 + tl.len() as int + 1);
    let z: int = 0;
    assert(s[z + 0] == (seq!['['])[0]);
    let o1: int = 1 + tl.len() as int;
    assert(s[o1 + 0] == (seq![','])[0]);
    let o2: int = o1 + 1;
    let o3: int = o2 + nid.len() as int;
    assert(s[o3 + 0] == (seq![']'])[0]);
    lemma_p_task_list_at(ts, s, 1);
    assert(!is_digit_char(']'));
    lemma_p_u32_at(next_id, s, o2);
    assert(p_store(s, 0) == Some((ts, next_id, o3 + 1)));
}

// ------------------------------------------------------------------
// The executable parser
// ------------------------------------------------------------------

/// Whether `lit` occurs at position `i` of `s`.
fn match_lit(s: &str, i: usize, lit: &str) -> (b: bool)
    requires
        i <= s@.len(),
    ensures
        b == matches_at(s@, lit@, i as int),
{
    let n = s.unicode_len();
    let m = lit.unicode_len();
    if m > n - i {
        return false;
    }
    let mut j: usize = 0;
    while j < m
        invariant
            n == s@.len(),
            m == lit@.len(),
            i + m <= n,
            0 <= j <= m,
            forall|k: int| 0 <= k < j ==> s@[i + k] == lit@[k],
        decreases m - j,
    {
        if s.get_char(i + j) != lit.get_char(j) {
            assert(!matches_at(s@, lit@, i as int));
            return false;
        }
        j += 1;
    }
    assert(matches_at(s@, lit@, i as int));
    true
}

/// The end of a digit run never lies before its start.
proof fn lemma_digits_end_ge(s: Seq<char>, i: int)
    ensures
        digits_end(s, i) >= i,
    decreases s.len() - i,
{
    if 0 <= i < s.len() && is_digit_char(s[i]) {
        lemma_digits_end_ge(s, i + 1);
    }
}

/// A run of digits pushes the end of the digit run at least that far.
proof fn lemma_digits_end_lower(s: Seq<char>, i: int, j: int)
    requires
        0 <= i <= j <= s.len(),
        forall|k: int| i <= k < j ==> is_digit_char(#[trigger] s[k]),
    ensures
        digits_end(s, i) >= j,
    decreases j - i,
{
    if i < j {
        assert(is_digit_char(s[i]));
        lemma_digits_end_lower(s, i + 1, j);
    } else {
        lemma_digits_end_ge(s, i);
    }
}

/// Digit values already read never decrease as the run extends.
proof fn lemma_val_monotone(s: Seq<char>, i: int, k1: int, k2: int)
    requires
        i <= k1 <= k2,
    ensures
        val_of(s, i, k1) <= val_of(s, i, k2),
    decreases k2 - k1,
{
    if k1 < k2 {
        lemma_val_monotone(s, i, k1, k2 - 1);
        assert(val_of(s, i, k2) == val_of(s, i, k2 - 1) * 10 + digit_val(s[k2 - 1]));
        assert(val_of(s, i, k2 - 1) * 10 >= val_of(s, i, k2 - 1)) by (nonlinear_arith);
    }
}

/// Whether position `j` of `s` holds an ASCII digit.
fn digit_at(s: &str, j: usize) -> (r: bool)
    requires
        j <= s@.len(),
    ensures
        r == (j < s@.len() && is_digit_char(s@[j as int])),
{
    if j < s.unicode_len() {
        let u = s.get_char(j) as u32;
        48 <= u && u <= 57
    } else {
        false
    }
}

/// Parses a digit run at `i` into a `u64`; `None` when there is no
/// digit there or the value does not fit.
fn parse_nat(s: &str, i: usize) -> (r: Option<(u64, usize)>)
    requires
        i <= s@.len(),
    ensures
        r matches Some(p) ==> (p_nat(s@, i as int) == Some((p.0 as nat, p.1 as int))
            && i < p.1 <= s@.len()),
        r is None ==> (p_nat(s@, i as int) is None || (p_nat(s@, i as int) matches Some(q)
            && q.0 > u64::MAX)),
{
    let n = s.unicode_len();
    let mut j: usize = i;
    let mut acc: u64 = 0;
    while digit_at(s, j)
        invariant
            n == s@.len(),
            i <= j <= n,
            forall|k: int| i <= k < j ==> is_digit_char(#[trigger] s@[k]),
            acc as nat == val_of(s@, i as int, j as int),
        decreases n - j,
    {
        let c = s.get_char(j);
        let d = (c as u32 - 48) as u64;
        assert(is_digit_char(s@[j as int]) && d as nat == digit_val(s@[j as int]));
        if acc > (u64::MAX - d) / 10 {
            proof {
                assert(acc * 10 + d > u64::MAX) by (nonlinear_arith)
                    requires
                        acc > (u64::MAX - d) / 10,
                        d <= 9,
                ;
                assert(val_of(s@, i as int, j + 1) == acc * 10 + d);
                lemma_digits_end_lower(s@, i as int, j + 1);
                let e = digits_end(s@, i as int);
                lemma_val_monotone(s@, i as int, j + 1, e);
            }
            return None;
        }
        proof {
            assert(acc * 10 + d <= u64::MAX) by (nonlinear_arith)
                requires
                    acc <= (u64::MAX - d) / 10,
                    d <= 9,
            ;
        }
        acc = acc * 10 + d;
        j += 1;
    }
    if j == i {
        proof {
            lemma_digits_end_at(s@, i as int, i as int);
        }
        return None;
    }
    proof {
        lemma_digits_end_at(s@, i as int, j as int);
    }
    Some((acc, j))
}

/// Parses a digit run that fits a `u32`, exactly as [`p_u32`] does.
fn parse_u32(s: &str, i: usize) -> (r: Option<(u32, usize)>)
    requires
        i <= s@.len(),
    ensures
        r matches Some(p) ==> (p_u32(s@, i as int) == Some((p.0, p.1 as int))
            && i < p.1 <= s@.len()),
        r is None ==> p_u32(s@, i as int) is None,
{
    match parse_nat(s, i) {
        Some((v, j)) => if v <= u32::MAX as u64 {
            Some((v as u32, j))
        } else {
            None
        },
        None => None,
    }
}

/// Parses an optionally negated digit run that fits an `i64`, exactly
/// as [`p_i64`] does.
fn parse_i64(s: &str, i: usize) -> (r: Option<(i64, usize)>)
    requires
        i <= s@.len(),
    ensures
        r matches Some(p) ==> (p_i64(s@, i as int) == Some((p.0, p.1 as int))
            && i < p.1 <= s@.len()),
        r is None ==> p_i64(s@, i as int) is None,
{
    let n = s.unicode_len();
    if i < n && s.get_char(i) == '-' {
        match parse_nat(s, i + 1) {
            Some((v, j)) => if v <= 0x8000_0000_0000_0000u64 {
                let w: i64 = if v == 0x8000_0000_0000_0000u64 {
                    i64::MIN
                } else {
                    -(v as i64)
                };
                assert(w == (-(v as int)) as i64);
                Some((w, j))
            } else {
                None
            },
            None => None,
        }
    } else {
        match parse_nat(s, i) {
            Some((v, j)) => if v <= i64::MAX as u64 {
                Some((v as i64, j))
            } else {
                None
            },
            None => None,
        }
    }
}

/// Parses `true` or `false`, exactly as [`p_bool`] does.
fn parse_bool(s: &str, i: usize) -> (r: Option<(bool, usize)>)
    requires
        i <= s@.len(),
    ensures
        r matches Some(p) ==> (p_bool(s@, i as int) == Some((p.0, p.1 as int))
            && i < p.1 <= s@.len()),
        r is None ==> p_bool(s@, i as int) is None,
{
    let n = s.unicode_len();
    if match_lit(s, i, "true") {
        proof {
            reveal_strlit("true");
        }
        Some((true, i + 4))
    } else if match_lit(s, i, "false") {
        proof {
            reveal_strlit("false");
        }
        Some((false, i + 5))
    } else {
        None
    }
}

/// Parses `null` or a number, exactly as [`p_opt_i64`] does.
fn parse_opt_i64(s: &str, i: usize) -> (r: Option<(Option<i64>, usize)>)
    requires
        i <= s@.len(),
    ensures
        r matches Some(p) ==> (p_opt_i64(s@, i as int) == Some((p.0, p.1 as int))
            && i < p.1 <= s@.len()),
        r is None ==> p_opt_i64(s@, i as int) is None,
{
    let n = s.unicode_len();
    if match_lit(s, i, "null") {
        proof {
            reveal_strlit("null");
        }
        Some((None, i + 4))
    } else {
        match parse_i64(s, i) {
            Some((v, j)) => Some((Some(v), j)),
            None => None,
        }
    }
}

/// Parses the characters of a string after its opening quote, exactly
/// as [`p_str_body`] does.
fn parse_str_body(s: &str, i: usize) -> (r: Option<(String, usize)>)
    requires
        i <= s@.len(),
    ensures
        r matches Some(p) ==> (p_str_body(s@, i as int) == Some((p.0@, p.1 as int))
            && i < p.1 <= s@.len()),
        r is None ==> p_str_body(s@, i as int) is None,
    decreases s@.len() - i,
{
    let n = s.unicode_len();
    if i >= n {
        return None;
    }
    let c = s.get_char(i);
    if c == '"' {
        let out = String::new();
        Some((out, i + 1))
    } else if c == '\\' {
        if n - i >= 2 {
            let c2 = s.get_char(i + 1);
            match parse_str_body(s, i + 2) {
                Some((t, j)) => {
                    let mut out = String::new();
                    push_char(&mut out, c2);
                    let out = out.concat(t.as_str());
                    assert(out@ =~= seq![s@[i as int + 1]] + t@);
                    Some((out, j))
                },
                None => None,
            }
        } else {
            None
        }
    } else {
        match parse_str_body(s, i + 1) {
            Some((t, j)) => {
                let mut out = String::new();
                push_char(&mut out, c);
                let out = out.concat(t.as_str());
                assert(out@ =~= seq![s@[i as int]] + t@);
                Some((out, j))
            },
            None => None,
        }
    }
}

/// Parses a quoted string, exactly as [`p_string`] does.
fn parse_string(s: &str, i: usize) -> (r: Option<(String, usize)>)
    requires
        i <= s@.len(),
    ensures
        r matches Some(p) ==> (p_string(s@, i as int) == Some((p.0@, p.1 as int))
            && i < p.1 <= s@.len()),
        r is None ==> p_string(s@, i as int) is None,
{
    let n = s.unicode_len();
    if i < n && s.get_char(i) == '"' {
        parse_str_body(s, i + 1)
    } else {
        None
    }
}

/// Parses `null` or a quoted string, exactly as [`p_opt_string`] does.
fn parse_opt_string(s: &str, i: usize) -> (r: Option<(Option<String>, usize)>)
    requires
        i <= s@.len(),
    ensures
        r matches Some(p) ==> (p_opt_string(s@, i as int) == Some((opt_str_view(p.0), p.1 as int))
            && i < p.1 <= s@.len()),
        r is None ==> p_opt_string(s@, i as int) is None,
{
    let n = s.unicode_len();
    if match_lit(s, i, "null") {
        proof {
            reveal_strlit("null");
        }
        Some((None, i + 4))
    } else {
        match parse_string(s, i) {
            Some((t, j)) => Some((Some(t), j)),
            None => None,
        }
    }
}

/// Parses one stored reminder, exactly as [`p_rem`] does.
#[verifier::rlimit(100)]
#[verifier::spinoff_prover]
fn parse_rem(s: &str, i: usize) -> (r: Option<(Reminder, usize)>)
    requires
        i <= s@.len(),
    ensures
        r matches Some(p) ==> (p_rem(s@, i as int) == Some((p.0@, p.1 as int))
            && i < p.1 <= s@.len()),
        r is None ==> p_rem(s@, i as int) is None,
{
    let n = s.unicode_len();
    if !(i < n && s.get_char(i) == '[') {
        return None;
    }
    let (time, j1) = match parse_i64(s, i + 1) {
        Some(p) => p,
        None => {
            return None;
        },
    };
    if !(j1 < n && s.get_char(j1) == ',') {
        return None;
    }
    let (code, j2) = match parse_u32(s, j1 + 1) {
        Some(p) => p,
        None => {
            return None;
        },
    };
    let rt = match code {
        0 => ReminderType::Email,
        1 => ReminderType::Notification,
        2 => ReminderType::Sms,
        3 => ReminderType::Both,
        4 => ReminderType::All,
        _ => {
            assert(code_rtype(code as nat) is None);
            return None;
        },
    };
    assert(code_rtype(code as nat) == Some(rt));
    if !(j2 < n && s.get_char(j2) == ',') {
        return None;
    }
    let (sent, j3) = match parse_bool(s, j2 + 1) {
        Some(p) => p,
        None => {
            return None;
        },
    };
    if !(j3 < n && s.get_char(j3) == ',') {
        return None;
    }
    let (retries, j4) = match parse_u32(s, j3 + 1) {
        Some(p) => p,
        None => {
            return None;
        },
    };
    if !(j4 < n && s.get_char(j4) == ',') {
        return None;
    }
    let (la, j5) = match parse_opt_i64(s, j4 + 1) {
        Some(p) => p,
        None => {
            return None;
        },
    };
    if !(j5 < n && s.get_char(j5) == ',') {
        return None;
    }
    let (err, j6) = match parse_opt_string(s, j5 + 1) {
        Some(p) => p,
        None => {
            return None;
        },
    };
    if !(j6 < n && s.get_char(j6) == ']') {
        return None;
    }
    let rem = Reminder {
        reminder_time: time,
        reminder_type: rt,
        sent,
        retry_count: retries,
        last_attempt: la,
        error_message: err,
    };
    Some((rem, j6 + 1))
}

/// Parses one or more stored reminders up to and past the closing
/// bracket, exactly as [`p_rem_items`] does.
fn parse_rem_items(s: &str, i: usize) -> (r: Option<(Vec<Reminder>, usize)>)
    requires
        i <= s@.len(),
    ensures
        r matches Some(p) ==> (p_rem_items(s@, i as int) == Some((rems_view(p.0@), p.1 as int))
            && i < p.1 <= s@.len()),
        r is None ==> p_rem_items(s@, i as int) is None,
    decreases s@.len() - i,
{
    let n = s.unicode_len();
    let (rem, j) = match parse_rem(s, i) {
        Some(p) => p,
        None => {
            return None;
        },
    };
    if j < n && s.get_char(j) == ',' {
        match parse_rem_items(s, j + 1) {
            Some((rest, k)) => {
                let mut out: Vec<Reminder> = Vec::new();
                let ghost rem_model = rem@;
                out.push(rem);
                let mut rest = rest;
                let ghost rest0 = rest@;
                out.append(&mut rest);
                proof {
                    assert(rems_view(out@) =~= seq![rem_model] + rems_view(rest0));
                }
                Some((out, k))
            },
            None => None,
        }
    } else if j < n && s.get_char(j) == ']' {
        let mut out: Vec<Reminder> = Vec::new();
        let ghost rem_model = rem@;
        out.push(rem);
        proof {
            assert(rems_view(out@) =~= seq![rem_model]);
        }
        Some((out, j + 1))
    } else {
        None
    }
}

/// Parses a stored reminder list, exactly as [`p_rems`] does.
fn parse_rems(s: &str, i: usize) -> (r: Option<(Vec<Reminder>, usize)>)
    requires
        i <= s@.len(),
    ensures
        r matches Some(p) ==> (p_rems(s@, i as int) == Some((rems_view(p.0@), p.1 as int))
            && i < p.1 <= s@.len()),
        r is None ==> p_rems(s@, i as int) is None,
{
    let n = s.unicode_len();
    if !(i < n && s.get_char(i) == '[') {
        return None;
    }
    if i + 1 < n && s.get_char(i + 1) == ']' {
        let out: Vec<Reminder> = Vec::new();
        proof {
            assert(rems_view(out@) =~= Seq::<ReminderModel>::empty());
        }
        return Some((out, i + 2));
    }
    parse_rem_items(s, i + 1)
}

/// Parses one or more stored tags up to and past the closing bracket,
/// exactly as [`p_tag_items`] does.
fn parse_tag_items(s: &str, i: usize) -> (r: Option<(Vec<String>, usize)>)
    requires
        i <= s@.len(),
    ensures
        r matches Some(p) ==> (p_tag_items(s@, i as int) == Some((tags_view(p.0@), p.1 as int))
            && i < p.1 <= s@.len()),
        r is None ==> p_tag_items(s@, i as int) is None,
    decreases s@.len() - i,
{
    let n = s.unicode_len();
    let (tag, j) = match parse_string(s, i) {
        Some(p) => p,
        None => {
            return None;
        },
    };
    if j < n && s.get_char(j) == ',' {
        match parse_tag_items(s, j + 1) {
            Some((rest, k)) => {
                let mut out: Vec<String> = Vec::new();
                let ghost tag_text = tag@;
                out.push(tag);
                let mut rest = rest;
                let ghost rest0 = rest@;
                out.append(&mut rest);
                proof {
                    assert(tags_view(out@) =~= seq![tag_text] + tags_view(rest0));
                }
                Some((out, k))
            },
            None => None,
        }
    } else if j < n && s.get_char(j) == ']' {
        let mut out: Vec<String> = Vec::new();
        let ghost tag_text = tag@;
        out.push(tag);
        proof {
            assert(tags_view(out@) =~= seq![tag_text]);
        }
        Some((out, j + 1))
    } else {
        None
    }
}

/// Parses a stored tag list, exactly as [`p_tags`] does.
fn parse_tags(s: &str, i: usize) -> (r: Option<(Vec<String>, usize)>)
    requires
        i <= s@.len(),
    ensures
        r matches Some(p) ==> (p_tags(s@, i as int) == Some((tags_view(p.0@), p.1 as int))
            && i < p.1 <= s@.len()),
        r is None ==> p_tags(s@, i as int) is None,
{
    let n = s.unicode_len();
    if !(i < n && s.get_char(i) == '[') {
        return None;
    }
    if i + 1 < n && s.get_char(i + 1) == ']' {
        let out: Vec<String> = Vec::new();
        proof {
            assert(tags_view(out@) =~= Seq::<Seq<char>>::empty());
        }
        return Some((out, i + 2));
    }
    parse_tag_items(s, i + 1)
}

/// Parses one stored task, exactly as [`p_task`] does.
#[verifier::rlimit(100)]
#[verifier::spinoff_prover]
fn parse_task(s: &str, i: usize) -> (r: Option<(Task, usize)>)
    requires
        i <= s@.len(),
    ensures
        r matches Some(p) ==> (p_task(s@, i as int) == Some((p.0@, p.1 as int))
            && i < p.1 <= s@.len()),
        r is None ==> p_task(s@, i as int) is None,
{
    let n = s.unicode_len();
    if !(i < n && s.get_char(i) == '[') {
        return None;
    }
    let (id, j1) = match parse_u32(s, i + 1) {
        Some(p) => p,
        None => {
            return None;
        },
    };
    if !(j1 < n && s.get_char(j1) == ',') {
        return None;
    }
    let (title, j2) = match parse_string(s, j1 + 1) {
        Some(p) => p,
        None => {
            return None;
        },
    };
    if !(j2 < n && s.get_char(j2) == ',') {
        return None;
    }
    let (descr, j3) = match parse_string(s, j2 + 1) {
        Some(p) => p,
        None => {
            return None;
        },
    };
    if !(j3 < n && s.get_char(j3) == ',') {
        return None;
    }
    let (due, j4) = match parse_i64(s, j3 + 1) {
        Some(p) => p,
        None => {
            return None;
        },
    };
    if !(j4 < n && s.get_char(j4) == ',') {
        return None;
    }
    let (pc, j5) = match parse_u32(s, j4 + 1) {
        Some(p) => p,
        None => {
            return None;
        },
    };
    let pri = match pc {
        0 => TaskPriority::Low,
        1 => TaskPriority::Medium,
        2 => TaskPriority::High,
        3 => TaskPriority::Urgent,
        _ => {
            assert(code_priority(pc as nat) is None);
            return None;
        },
    };
    assert(code_priority(pc as nat) == Some(pri));
    if !(j5 < n && s.get_char(j5) == ',') {
        return None;
    }
    let (sc, j6) = match parse_u32(s, j5 + 1) {
        Some(p) => p,
        None => {
            return None;
        },
    };
    let st = match sc {
        0 => TaskStatus::Pending,
        1 => TaskStatus::InProgress,
        2 => TaskStatus::Completed,
        3 => TaskStatus::Cancelled,
        _ => {
            assert(code_status(sc as nat) is None);
            return None;
        },
    };
    assert(code_status(sc as nat) == Some(st));
    if !(j6 < n && s.get_char(j6) == ',') {
        return None;
    }
    let (created, j7) = match parse_i64(s, j6 + 1) {
        Some(p) => p,
        None => {
            return None;
        },
    };
    if !(j7 < n && s.get_char(j7) == ',') {
        return None;
    }
    let (rems, j8) = match parse_rems(s, j7 + 1) {
        Some(p) => p,
        None => {
            return None;
        },
    };
    if !(j8 < n && s.get_char(j8) == ',') {
        return None;
    }
    let (tags, j9) = match parse_tags(s, j8 + 1) {
        Some(p) => p,
        None => {
            return None;
        },
    };
    if !(j9 < n && s.get_char(j9) == ']') {
        return None;
    }
    let task = Task {
        id,
        title,
        description: descr,
        due_date: due,
        priority: pri,
        status: st,
        created_at: created,
        reminders: rems,
        tags,
    };
    proof {
        assert(task@.reminders =~= rems_view(task.reminders@));
        assert(task@.tags =~= tags_view(task.tags@));
    }
    Some((task, j9 + 1))
}

/// Parses one or more stored tasks up to and past the closing bracket,
/// exactly as [`p_task_items`] does.
fn parse_task_items(s: &str, i: usize) -> (r: Option<(Vec<Task>, usize)>)
    requires
        i <= s@.len(),
    ensures
        r matches Some(p) ==> (p_task_items(s@, i as int) == Some((tasks_view(p.0@), p.1 as int))
            && i < p.1 <= s@.len()),
        r is None ==> p_task_items(s@, i as int) is None,
    decreases s@.len() - i,
{
    let n = s.unicode_len();
    let (task, j) = match parse_task(s, i) {
        Some(p) => p,
        None => {
            return None;
        },
    };
    if j < n && s.get_char(j) == ',' {
        match parse_task_items(s, j + 1) {
            Some((rest, k)) => {
                let mut out: Vec<Task> = Vec::new();
                let ghost task_model = task@;
                out.push(task);
                let mut rest = rest;
                let ghost rest0 = rest@;
                out.append(&mut rest);
                proof {
                    assert(tasks_view(out@) =~= seq![task_model] + tasks_view(rest0));
                }
                Some((out, k))
            },
            None => None,
        }
    } else if j < n && s.get_char(j) == ']' {
        let mut out: Vec<Task> = Vec::new();
        let ghost task_model = task@;
        out.push(task);
        proof {
            assert(tasks_view(out@) =~= seq![task_model]);
        }
        Some((out, j + 1))
    } else {
        None
    }
}

/// Parses a stored task list, exactly as [`p_task_list`] does.
fn parse_task_list(s: &str, i: usize) -> (r: Option<(Vec<Task>, usize)>)
    requires
        i <= s@.len(),
    ensures
        r matches Some(p) ==> (p_task_list(s@, i as int) == Some((tasks_view(p.0@), p.1 as int))
            && i < p.1 <= s@.len()),
        r is None ==> p_task_list(s@, i as int) is None,
{
    let n = s.unicode_len();
    if !(i < n && s.get_char(i) == '[') {
        return None;
    }
    if i + 1 < n && s.get_char(i + 1) == ']' {
        let out: Vec<Task> = Vec::new();
        proof {
            assert(tasks_view(out@) =~= Seq::<TaskModel>::empty());
        }
        return Some((out, i + 2));
    }
    parse_task_items(s, i + 1)
}

/// Reconstructs a store from a saved document. Yields the store exactly
/// when the document parses completely and its ids pass validation
/// (unique, all below the saved counter, counter at least one); the
/// reconstructed store carries the given file path and no delivery
/// settings.
pub fn decode_store_text(text: &str, file_path: &str) -> (r: Option<crate::scheduler::TaskScheduler>)
    ensures
        r is Some <==> store_parse_ok(text@),
        r matches Some(sch) ==> (sch.wf() && sch@.tasks == parsed_store(text@).0
            && sch@.next_id == parsed_store(text@).1 && sch@.file_path == file_path@
            && sch@.email_config is None && sch@.sms_config is None),
{
    let n = text.unicode_len();
    if !(0 < n && text.get_char(0) == '[') {
        return None;
    }
    let (tasks, j1) = match parse_task_list(text, 1) {
        Some(p) => p,
        None => {
            return None;
        },
    };
    if !(j1 < n && text.get_char(j1) == ',') {
        return None;
    }
    let (nid, j2) = match parse_u32(text, j1 + 1) {
        Some(p) => p,
        None => {
            return None;
        },
    };
    if !(j2 < n && text.get_char(j2) == ']') {
        return None;
    }
    if j2 + 1 != n {
        return None;
    }
    if nid < 1 {
        return None;
    }
    proof {
        assert(p_store(text@, 0) == Some((tasks_view(tasks@), nid, n as int)));
        assert(store_parse_ok(text@) == ids_ok(tasks_view(tasks@), nid));
    }
    // validate: unique ids, all below the counter
    let count = tasks.len();
    let mut a: usize = 0;
    while a < count
        invariant
            count == tasks@.len(),
            0 <= a <= count,
            store_parse_ok(text@) == ids_ok(tasks_view(tasks@), nid),
            forall|x: int, y: int| 0 <= x < y < a ==> tasks@[x]@.id != tasks@[y]@.id,
            forall|x: int| 0 <= x < a ==> (#[trigger] tasks@[x]@).id < nid,
        decreases count - a,
    {
        if tasks[a].id >= nid {
            proof {
                assert(tasks_view(tasks@)[a as int].id >= nid);
                assert(!ids_ok(tasks_view(tasks@), nid));
            }
            return None;
        }
        let mut b: usize = 0;
        while b < a
            invariant
                count == tasks@.len(),
                0 <= b <= a < count,
                store_parse_ok(text@) == ids_ok(tasks_view(tasks@), nid),
                forall|x: int| 0 <= x < b ==> tasks@[x]@.id != tasks@[a as int]@.id,
            decreases a - b,
        {
            if tasks[b].id == tasks[a].id {
                proof {
                    assert(tasks_view(tasks@)[b as int].id == tasks_view(tasks@)[a as int].id);
                    assert(!ids_ok(tasks_view(tasks@), nid));
                }
                return None;
            }
            b += 1;
        }
        a += 1;
    }
    assert(ids_ok(tasks_view(tasks@), nid)) by {
        assert(forall|x: int, y: int| 0 <= x < y < tasks@.len()
            ==> tasks_view(tasks@)[x].id != tasks_view(tasks@)[y].id);
        assert(forall|x: int| 0 <= x < tasks@.len()
            ==> (#[trigger] tasks_view(tasks@)[x]).id < nid);
    }
    let sch = crate::scheduler::TaskScheduler::assemble(
        tasks,
        nid,
        file_path.to_owned(),
        None,
        None,
    );
    proof {
        assert(sch@.tasks =~= tasks_view(tasks@));
    }
    Some(sch)
}

/// Renders the whole stored document for a task list and its id
/// counter.
pub fn encode_store_text(tasks: &Vec<Task>, next_id: u32) -> (out: String)
    ensures
        out@ == enc_store(tasks_view(tasks@), next_id),
{
    let mut out = String::new();
    push_char(&mut out, '[');
    push_char(&mut out, '[');
    if tasks.len() == 0 {
        push_char(&mut out, ']');
    } else {
        encode_task_items_into(&mut out, tasks, 0);
        push_char(&mut out, ']');
    }
    proof {
        assert(out@ =~= seq!['['] + enc_task_list(tasks_view(tasks@)));
    }
    push_char(&mut out, ',');
    encode_u64_into(&mut out, next_id as u64);
    push_char(&mut out, ']');
    proof {
        assert(out@ =~= enc_store(tasks_view(tasks@), next_id));
    }
    out
}

// ------------------------------------------------------------------
// The delivery settings' side files
// ------------------------------------------------------------------

/// The stored form of the email settings: one array with the address,
/// server, port, credentials, and retry parameters.
pub open spec fn enc_email_config(c: crate::scheduler::EmailConfigModel) -> Seq<char> {
    seq!['['] + enc_string(c.email) + seq![','] + enc_string(c.smtp_server) + seq![','] + dec_of(
        c.smtp_port as nat,
    ) + seq![','] + enc_string(c.username) + seq![','] + enc_string(c.password) + seq![',']
        + dec_of(c.retry_attempts as nat) + seq![','] + dec_of(c.retry_delay_seconds as nat)
        + seq![']']
}

/// Parses stored email settings.
pub open spec fn p_email_config(s: Seq<char>, i: int) -> Option<
    (crate::scheduler::EmailConfigModel, int),
> {
    if !(0 <= i < s.len() && s[i] == '[') {
        None
    } else {
        match p_string(s, i + 1) {
            None => None,
            Some((email, j1)) => if !(j1 < s.len() && s[j1] == ',') {
                None
            } else {
                match p_string(s, j1 + 1) {
                    None => None,
                    Some((server, j2)) => if !(j2 < s.len() && s[j2] == ',') {
                        None
                    } else {
                        match p_nat(s, j2 + 1) {
                            None => None,
                            Some((port, j3)) => if !(port <= u16::MAX as nat && j3 < s.len()
                                && s[j3] == ',') {
                                None
                            } else {
                                match p_string(s, j3 + 1) {
                                    None => None,
                                    Some((user, j4)) => if !(j4 < s.len() && s[j4] == ',') {
                                        None
                                    } else {
                                        match p_string(s, j4 + 1) {
                                            None => None,
                                            Some((pass, j5)) => if !(j5 < s.len() && s[j5]
                                                == ',') {
                                                None
                                            } else {
                                                match p_u32(s, j5 + 1) {
                                                    None => None,
                                                    Some((retries, j6)) => if !(j6 < s.len()
                                                        && s[j6] == ',') {
                                                        None
                                                    } else {
                                                        p_email_config_tail(
                                                            s,
                                                            j6 + 1,
                                                            email,
                                                            server,
                                                            port as u16,
                                                            user,
                                                            pass,
                                                            retries,
                                                        )
                                                    },
                                                }
                                            },
                                        }
                                    },
                                }
                            },
                        }
                    },
                }
            },
        }
    }
}

/// Parses the delay field and closing bracket of stored email settings.
pub open spec fn p_email_config_tail(
    s: Seq<char>,
    i: int,
    email: Seq<char>,
    server: Seq<char>,
    port: u16,
    user: Seq<char>,
    pass: Seq<char>,
    retries: u32,
) -> Option<(crate::scheduler::EmailConfigModel, int)> {
    match p_nat(s, i) {
        None => None,
        Some((delay, j)) => if !(delay <= u64::MAX as nat && j < s.len() && s[j] == ']') {
            None
        } else {
            Some((
                crate::scheduler::EmailConfigModel {
                    email,
                    smtp_server: server,
                    smtp_port: port,
                    username: user,
                    password: pass,
                    retry_attempts: retries,
                    retry_delay_seconds: delay as u64,
                },
                j + 1,
            ))
        },
    }
}

/// The stored form of the SMS settings: the phone number, the carrier,
/// and the enabled flag.
pub open spec fn enc_sms_config(c: crate::scheduler::SmsConfigModel) -> Seq<char> {
    seq!['['] + enc_string(c.phone_number) + seq![','] + enc_string(c.carrier) + seq![',']
        + enc_bool(c.enabled) + seq![']']
}

/// Parses stored SMS settings.
pub open spec fn p_sms_config(s: Seq<char>, i: int) -> Option<
    (crate::scheduler::SmsConfigModel, int),
> {
    if !(0 <= i < s.len() && s[i] == '[') {
        None
    } else {
        match p_string(s, i + 1) {
            None => None,
            Some((phone, j1)) => if !(j1 < s.len() && s[j1] == ',') {
                None
            } else {
                match p_string(s, j1 + 1) {
                    None => None,
                    Some((carrier, j2)) => if !(j2 < s.len() && s[j2] == ',') {
                        None
                    } else {
                        match p_bool(s, j2 + 1) {
                            None => None,
                            Some((enabled, j3)) => if !(j3 < s.len() && s[j3] == ']') {
                                None
                            } else {
                                Some((
                                    crate::scheduler::SmsConfigModel {
                                        phone_number: phone,
                                        carrier,
                                        enabled,
                                    },
                                    j3 + 1,
                                ))
                            },
                        }
                    },
                }
            },
        }
    }
}

/// Renders the email settings for their side file.
pub fn encode_email_config(c: &crate::scheduler::EmailConfig) -> (out: String)
    ensures
        out@ == enc_email_config(c@),
{
    let mut out = String::new();
    push_char(&mut out, '[');
    let ghost mut acc: Seq<char> = seq!['['];
    proof {
        assert(out@ =~= acc);
    }
    encode_string_into(&mut out, c.email.as_str());
    proof {
        let prev = acc;
        acc = prev + enc_string(c@.email);
        assert(out@ =~= acc);
    }
    push_char(&mut out, ',');
    encode_string_into(&mut out, c.smtp_server.as_str());
    proof {
        let prev = acc;
        acc = prev + seq![','] + enc_string(c@.smtp_server);
        assert(out@ =~= acc);
    }
    push_char(&mut out, ',');
    encode_u64_into(&mut out, c.smtp_port as u64);
    proof {
        let prev = acc;
        acc = prev + seq![','] + dec_of(c@.smtp_port as nat);
        assert(out@ =~= acc);
    }
    push_char(&mut out, ',');
    encode_string_into(&mut out, c.username.as_str());
    proof {
        let prev = acc;
        acc = prev + seq![','] + enc_string(c@.username);
        assert(out@ =~= acc);
    }
    push_char(&mut out, ',');
    encode_string_into(&mut out, c.password.as_str());
    proof {
        let prev = acc;
        acc = prev + seq![','] + enc_string(c@.password);
        assert(out@ =~= acc);
    }
    push_char(&mut out, ',');
    encode_u64_into(&mut out, c.retry_attempts as u64);
    proof {
        let prev = acc;
        acc = prev + seq![','] + dec_of(c@.retry_attempts as nat);
        assert(out@ =~= acc);
    }
    push_char(&mut out, ',');
    encode_u64_into(&mut out, c.retry_delay_seconds);
    push_char(&mut out, ']');
    proof {
        assert(out@ =~= enc_email_config(c@));
    }
    out
}

/// Renders the SMS settings for their side file.
pub fn encode_sms_config(c: &crate::scheduler::SmsConfig) -> (out: String)
    ensures
        out@ == enc_sms_config(c@),
{
    let mut out = String::new();
    push_char(&mut out, '[');
    encode_string_into(&mut out, c.phone_number.as_str());
    push_char(&mut out, ',');
    encode_string_into(&mut out, c.carrier.as_str());
    push_char(&mut out, ',');
    encode_bool_into(&mut out, c.enabled);
    push_char(&mut out, ']');
    proof {
        assert(out@ =~= enc_sms_config(c@));
    }
    out
}

/// Reconstructs email settings from their side file; the whole document
/// must parse.
pub fn decode_email_config(text: &str) -> (r: Option<crate::scheduler::EmailConfig>)
    ensures
        r is Some <==> (p_email_config(text@, 0) matches Some(q) && q.1 == text@.len()),
        r matches Some(c) ==> (p_email_config(text@, 0) matches Some(q) && q.0 == c@),
{
    let n = text.unicode_len();
    if !(0 < n && text.get_char(0) == '[') {
        return None;
    }
    let (email, j1) = match parse_string(text, 1) {
        Some(p) => p,
        None => {
            return None;
        },
    };
    if !(j1 < n && text.get_char(j1) == ',') {
        return None;
    }
    let (server, j2) = match parse_string(text, j1 + 1) {
        Some(p) => p,
        None => {
            return None;
        },
    };
    if !(j2 < n && text.get_char(j2) == ',') {
        return None;
    }
    let (port, j3) = match parse_nat(text, j2 + 1) {
        Some(p) => p,
        None => {
            return None;
        },
    };
    if !(port <= u16::MAX as u64 && j3 < n && text.get_char(j3) == ',') {
        return None;
    }
    let (user, j4) = match parse_string(text, j3 + 1) {
        Some(p) => p,
        None => {
            return None;
        },
    };
    if !(j4 < n && text.get_char(j4) == ',') {
        return None;
    }
    let (pass, j5) = match parse_string(text, j4 + 1) {
        Some(p) => p,
        None => {
            return None;
        },
    };
    if !(j5 < n && text.get_char(j5) == ',') {
        return None;
    }
    let (retries, j6) = match parse_u32(text, j5 + 1) {
        Some(p) => p,
        None => {
            return None;
        },
    };
    if !(j6 < n && text.get_char(j6) == ',') {
        return None;
    }
    let (delay, j7) = match parse_nat(text, j6 + 1) {
        Some(p) => p,
        None => {
            return None;
        },
    };
    if !(j7 < n && text.get_char(j7) == ']') {
        return None;
    }
    if j7 + 1 != n {
        return None;
    }
    Some(crate::scheduler::EmailConfig {
        email,
        smtp_server: server,
        smtp_port: port as u16,
        username: user,
        password: pass,
        retry_attempts: retries,
        retry_delay_seconds: delay,
    })
}

/// Reconstructs SMS settings from their side file; the whole document
/// must parse.
pub fn decode_sms_config(text: &str) -> (r: Option<crate::scheduler::SmsConfig>)
    ensures
        r is Some <==> (p_sms_config(text@, 0) matches Some(q) && q.1 == text@.len()),
        r matches Some(c) ==> (p_sms_config(text@, 0) matches Some(q) && q.0 == c@),
{
    let n = text.unicode_len();
    if !(0 < n && text.get_char(0) == '[') {
        return None;
    }
    let (phone, j1) = match parse_string(text, 1) {
        Some(p) => p,
        None => {
            return None;
        },
    };
    if !(j1 < n && text.get_char(j1) == ',') {
        return None;
    }
    let (carrier, j2) = match parse_string(text, j1 + 1) {
        Some(p) => p,
        None => {
            return None;
        },
    };
    if !(j2 < n && text.get_char(j2) == ',') {
        return None;
    }
    let (enabled, j3) = match parse_bool(text, j2 + 1) {
        Some(p) => p,
        None => {
            return None;
        },
    };
    if !(j3 < n && text.get_char(j3) == ']') {
        return None;
    }
    if j3 + 1 != n {
        return None;
    }
    Some(crate::scheduler::SmsConfig { phone_number: phone, carrier, enabled })
}

/// Law: the email settings round-trip through their side file.
#[verifier::rlimit(100)]
#[verifier::spinoff_prover]
pub proof fn lemma_email_config_round_trip(c: crate::scheduler::EmailConfigModel)
    ensures
        p_email_config(enc_email_config(c), 0) == Some((
            c,
            enc_email_config(c).len() as int,
        )),
{
    let s = enc_email_config(c);
    let a1 = enc_string(c.email);
    let a3 = enc_string(c.smtp_server);
    let a5 = dec_of(c.smtp_port as nat);
    let a7 = enc_string(c.username);
    let a9 = enc_string(c.password);
    let a11 = dec_of(c.retry_attempts as nat);
    let a13 = dec_of(c.retry_delay_seconds as nat);
    assert(matches_at(s, s, 0)) by {
        assert(forall|j: int| 0 <= j < s.len() ==> s[0 + j] == #[trigger] s[j]);
    }
    let c14 = seq!['['] + a1 + seq![','] + a3 + seq![','] + a5 + seq![','] + a7 + seq![','] + a9
        + seq![','] + a11 + seq![','];
    assert(s == (c14 + a13) + seq![']']);
    lemma_matches_split(s, c14 + a13, seq![']'], 0);
    lemma_matches_split(s, c14, a13, 0);
    let c13 = seq!['['] + a1 + seq![','] + a3 + seq![','] + a5 + seq![','] + a7 + seq![','] + a9
        + seq![','] + a11;
    assert(c14 == c13 + seq![',']);
    lemma_matches_split(s, c13, seq![','], 0);
    let c12 = seq!['['] + a1 + seq![','] + a3 + seq![','] + a5 + seq![','] + a7 + seq![','] + a9
        + seq![','];
    assert(c13 == c12 + a11);
    lemma_matches_split(s, c12, a11, 0);
    let c11 = seq!['['] + a1 + seq![','] + a3 + seq![','] + a5 + seq![','] + a7 + seq![','] + a9;
    assert(c12 == c11 + seq![',']);
    lemma_matches_split(s, c11, seq![','], 0);
    let c10 = seq!['['] + a1 + seq![','] + a3 + seq![','] + a5 + seq![','] + a7 + seq![','];
    assert(c11 == c10 + a9);
    lemma_matches_split(s, c10, a9, 0);
    let c9 = seq!['['] + a1 + seq![','] + a3 + seq![','] + a5 + seq![','] + a7;
    assert(c10 == c9 + seq![',']);
    lemma_matches_split(s, c9, seq![','], 0);
    let c8 = seq!['['] + a1 + seq![','] + a3 + seq![','] + a5 + seq![','];
    assert(c9 == c8 + a7);
    lemma_matches_split(s, c8, a7, 0);
    let c7 = seq!['['] + a1 + seq![','] + a3 + seq![','] + a5;
    assert(c8 == c7 + seq![',']);
    lemma_matches_split(s, c7, seq![','], 0);
    let c6 = seq!['['] + a1 + seq![','] + a3 + seq![','];
    assert(c7 == c6 + a5);
    lemma_matches_split(s, c6, a5, 0);
    let c5 = seq!['['] + a1 + seq![','] + a3;
    assert(c6 == c5 + seq![',']);
    lemma_matches_split(s, c5, seq![','], 0);
    let c4 = seq!['['] + a1 + seq![','];
    assert(c5 == c4 + a3);
    lemma_matches_split(s, c4, a3, 0);
    let c3 = seq!['['] + a1;
    assert(c4 == c3 + seq![',']);
    lemma_matches_split(s, c3, seq![','], 0);
    lemma_matches_split(s, seq!['['], a1, 0);
    let z: int = 0;
    assert(s[z + 0] == (seq!['['])[0]);
    let o1: int = 1;
    let o2 = o1 + a1.len();
    let o3 = o2 + 1;
    let o4 = o3 + a3.len();
    let o5 = o4 + 1;
    let o6 = o5 + a5.len();
    let o7 = o6 + 1;
    let o8 = o7 + a7.len();
    let o9 = o8 + 1;
    let o10 = o9 + a9.len();
    let o11 = o10 + 1;
    let o12 = o11 + a11.len();
    let o13 = o12 + 1;
    let o14 = o13 + a13.len();
    assert(s[o2 + 0] == (seq![','])[0]);
    assert(s[o4 + 0] == (seq![','])[0]);
    assert(s[o6 + 0] == (seq![','])[0]);
    assert(s[o8 + 0] == (seq![','])[0]);
    assert(s[o10 + 0] == (seq![','])[0]);
    assert(s[o12 + 0] == (seq![','])[0]);
    assert(s[o14 + 0] == (seq![']'])[0]);
    assert(!is_digit_char(','));
    assert(!is_digit_char(']'));
    lemma_p_string_at(c.email, s, o1);
    lemma_p_string_at(c.smtp_server, s, o3);
    lemma_p_nat_at(c.smtp_port as nat, s, o5);
    lemma_p_string_at(c.username, s, o7);
    lemma_p_string_at(c.password, s, o9);
    let rv: u32 = c.retry_attempts;
    lemma_p_u32_at(rv, s, o11);
    lemma_p_nat_at(c.retry_delay_seconds as nat, s, o13);
    assert((c.retry_delay_seconds as nat) as u64 == c.retry_delay_seconds);
    assert(p_email_config(s, 0) == Some((c, o14 + 1)));
}

/// Law: the SMS settings round-trip through their side file.
pub proof fn lemma_sms_config_round_trip(c: crate::scheduler::SmsConfigModel)
    ensures
        p_sms_config(enc_sms_config(c), 0) == Some((c, enc_sms_config(c).len() as int)),
{
    let s = enc_sms_config(c);
    let a1 = enc_string(c.phone_number);
    let a3 = enc_string(c.carrier);
    let a5 = enc_bool(c.enabled);
    assert(matches_at(s, s, 0)) by {
        assert(forall|j: int| 0 <= j < s.len() ==> s[0 + j] == #[trigger] s[j]);
    }
    let c6 = seq!['['] + a1 + seq![','] + a3 + seq![','];
    assert(s == (c6 + a5) + seq![']']);
    lemma_matches_split(s, c6 + a5, seq![']'], 0);
    lemma_matches_split(s, c6, a5, 0);
    let c5 = seq!['['] + a1 + seq![','] + a3;
    assert(c6 == c5 + seq![',']);
    lemma_matches_split(s, c5, seq![','], 0);
    let c4 = seq!['['] + a1 + seq![','];
    assert(c5 == c4 + a3);
    lemma_matches_split(s, c4, a3, 0);
    let c3 = seq!['['] + a1;
    assert(c4 == c3 + seq![',']);
    lemma_matches_split(s, c3, seq![','], 0);
    lemma_matches_split(s, seq!['['], a1, 0);
    let z: int = 0;
    assert(s[z + 0] == (seq!['['])[0]);
    let o1: int = 1;
    let o2 = o1 + a1.len();
    let o3 = o2 + 1;
    let o4 = o3 + a3.len();
    let o5 = o4 + 1;
    let o6 = o5 + a5.len();
    assert(s[o2 + 0] == (seq![','])[0]);
    assert(s[o4 + 0] == (seq![','])[0]);
    assert(s[o6 + 0] == (seq![']'])[0]);
    lemma_p_string_at(c.phone_number, s, o1);
    lemma_p_string_at(c.carrier, s, o3);
    lemma_p_bool_at(c.enabled, s, o5);
    assert(p_sms_config(s, 0) == Some((c, o6 + 1)));
}

} // verus!
