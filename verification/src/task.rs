//! The task, its priority and status, and its form as a flat record.

use vstd::prelude::*;
use std::cmp::Ordering;
use crate::date::{date_or_sentinel, date_text, CalendarDate, SENTINEL_DAY};
use crate::decimal::{decimal, decimal_text, parse_decimal, parse_u32, parse_u64};
use crate::text::{eq_ignoring_case, join_commas, join_with, lower, same_text, split_commas, split_on, texts};

verus! {

/// How urgent a task is. The order is `Low < Medium < High`.
#[derive(Clone, Copy, Debug, PartialEq, Eq, Structural)]
pub enum Priority {
    Low,
    Medium,
    High,
}

/// Where a task stands.
#[derive(Clone, Copy, Debug, PartialEq, Eq, Structural)]
pub enum Status {
    Todo,
    Done,
    Hold,
    Blocked,
}

impl Priority {
    /// The place of the priority in the order: 0, 1 or 2.
    pub open spec fn rank(self) -> int {
        match self {
            Priority::Low => 0,
            Priority::Medium => 1,
            Priority::High => 2,
        }
    }

    /// The canonical name of the priority.
    pub open spec fn name(self) -> Seq<char> {
        match self {
            Priority::Low => "Low"@,
            Priority::Medium => "Medium"@,
            Priority::High => "High"@,
        }
    }

    /// The priority with this canonical name; `Low` for any other text.
    pub open spec fn of_name(s: Seq<char>) -> Priority {
        if s == "Medium"@ {
            Priority::Medium
        } else if s == "High"@ {
            Priority::High
        } else {
            Priority::Low
        }
    }

    /// The priority that an input token chooses: a name in any case, or the
    /// number of the choice (`1`, `2`, `3`); `Low` for any other text.
    pub open spec fn of_token(s: Seq<char>) -> Priority {
        if lower(s) == lower("medium"@) || s == "2"@ {
            Priority::Medium
        } else if lower(s) == lower("high"@) || s == "3"@ {
            Priority::High
        } else {
            Priority::Low
        }
    }

    /// The canonical name of the priority.
    pub fn to_string(&self) -> (r: String)
        ensures
            r@ == self.name(),
    {
        match self {
            Priority::Low => String::from_str("Low"),
            Priority::Medium => String::from_str("Medium"),
            Priority::High => String::from_str("High"),
        }
    }

    /// Compares two priorities in the order `Low < Medium < High`.
    pub fn cmp(&self, priority: &Priority) -> (r: Ordering)
        ensures
            (r == Ordering::Less) == (self.rank() < priority.rank()),
            (r == Ordering::Equal) == (self.rank() == priority.rank()),
            (r == Ordering::Greater) == (self.rank() > priority.rank()),
    {
        match self {
            Priority::Low => match priority {
                Priority::Low => Ordering::Equal,
                Priority::Medium => Ordering::Less,
                Priority::High => Ordering::Less,
            },
            Priority::Medium => match priority {
                Priority::Low => Ordering::Greater,
                Priority::Medium => Ordering::Equal,
                Priority::High => Ordering::Less,
            },
            Priority::High => match priority {
                Priority::Low => Ordering::Greater,
                Priority::Medium => Ordering::Greater,
                Priority::High => Ordering::Equal,
            },
        }
    }

    /// Reads a canonical name; any other text gives `Low`.
    pub fn from_name(s: &str) -> (r: Priority)
        ensures
            r == Priority::of_name(s@),
    {
        if same_text(s, "Medium") {
            Priority::Medium
        } else if same_text(s, "High") {
            Priority::High
        } else {
            Priority::Low
        }
    }

    /// Reads an input token; a text that chooses no priority gives `Low`.
    pub fn from_token(s: &str) -> (r: Priority)
        ensures
            r == Priority::of_token(s@),
    {
        if eq_ignoring_case(s, "medium") || same_text(s, "2") {
            Priority::Medium
        } else if eq_ignoring_case(s, "high") || same_text(s, "3") {
            Priority::High
        } else {
            Priority::Low
        }
    }
}

impl Status {
    /// The canonical name of the status.
    pub open spec fn name(self) -> Seq<char> {
        match self {
            Status::Todo => "Todo"@,
            Status::Done => "Done"@,
            Status::Hold => "Hold"@,
            Status::Blocked => "Blocked"@,
        }
    }

    /// The status with this canonical name; `Todo` for any other text.
    pub open spec fn of_name(s: Seq<char>) -> Status {
        if s == "Blocked"@ {
            Status::Blocked
        } else if s == "Done"@ {
            Status::Done
        } else if s == "Hold"@ {
            Status::Hold
        } else {
            Status::Todo
        }
    }

    /// The mark of the status in a listing.
    pub open spec fn glyph(self) -> Seq<char> {
        match self {
            Status::Todo => " "@,
            Status::Done => "x"@,
            Status::Blocked => "!"@,
            Status::Hold => "~"@,
        }
    }

    /// The canonical name of the status.
    pub fn to_string(&self) -> (r: String)
        ensures
            r@ == self.name(),
    {
        match self {
            Status::Todo => String::from_str("Todo"),
            Status::Done => String::from_str("Done"),
            Status::Hold => String::from_str("Hold"),
            Status::Blocked => String::from_str("Blocked"),
        }
    }

    /// Reads a canonical name; any other text gives `Todo`.
    pub fn from_name(s: &str) -> (r: Status)
        ensures
            r == Status::of_name(s@),
    {
        if same_text(s, "Blocked") {
            Status::Blocked
        } else if same_text(s, "Done") {
            Status::Done
        } else if same_text(s, "Hold") {
            Status::Hold
        } else {
            Status::Todo
        }
    }

    /// The mark of the status in a listing.
    pub fn symbol(&self) -> (r: &'static str)
        ensures
            r@ == self.glyph(),
    {
        match self {
            Status::Todo => " ",
            Status::Done => "x",
            Status::Blocked => "!",
            Status::Hold => "~",
        }
    }
}

/// Reading the name of a priority gives the priority back.
pub proof fn lemma_priority_name(p: Priority)
    ensures
        Priority::of_name(p.name()) == p,
{
    reveal_strlit("Low");
    reveal_strlit("Medium");
    reveal_strlit("High");
    assert("Low"@.len() == 3 && "Medium"@.len() == 6 && "High"@.len() == 4);
}

/// Reading the name of a status gives the status back.
pub proof fn lemma_status_name(s: Status)
    ensures
        Status::of_name(s.name()) == s,
{
    reveal_strlit("Todo");
    reveal_strlit("Done");
    reveal_strlit("Hold");
    reveal_strlit("Blocked");
    assert("Todo"@[0] == 'T' && "Done"@[0] == 'D' && "Hold"@[0] == 'H');
    assert("Blocked"@.len() == 7 && "Done"@.len() == 4);
}

/// One unit of work.
#[derive(Debug)]
pub struct Task {
    /// Positive and unique within a store.
    pub id: u32,
    pub description: String,
    /// The first tag is the one a listing groups by.
    pub tags: Vec<String>,
    pub due: CalendarDate,
    /// When the task was made, in seconds since the Unix epoch.
    pub timestamp: u64,
    pub priority: Priority,
    pub status: Status,
}

/// A task as a mathematical value.
pub struct TaskView {
    pub id: nat,
    pub description: Seq<char>,
    pub tags: Seq<Seq<char>>,
    pub due: int,
    pub created_at: nat,
    pub priority: Priority,
    pub status: Status,
}

impl View for Task {
    type V = TaskView;

    open spec fn view(&self) -> TaskView {
        TaskView {
            id: self.id as nat,
            description: self.description@,
            tags: texts(self.tags@),
            due: self.due@,
            created_at: self.timestamp as nat,
            priority: self.priority,
            status: self.status,
        }
    }
}

/// The number of fields of a record.
pub const RECORD_FIELDS: usize = 7;

/// The record of a task: id, description, tags joined by commas, due date,
/// time of creation in seconds, priority and status.
pub open spec fn record_of(t: TaskView) -> Seq<Seq<char>> {
    seq![
        decimal(t.id),
        t.description,
        join_with(t.tags, ','),
        date_text(t.due),
        decimal(t.created_at),
        t.priority.name(),
        t.status.name(),
    ]
}

/// The task of a record, where the record has its seven fields and its id and
/// time of creation are numbers. A due date, priority or status that cannot be
/// read takes its default: the sentinel date, `Low`, `Todo`.
pub open spec fn task_of_record(r: Seq<Seq<char>>) -> Option<TaskView> {
    if r.len() < 7 {
        None
    } else {
        match (parse_decimal(r[0], u32::MAX as nat), parse_decimal(r[4], u64::MAX as nat)) {
            (Some(id), Some(created_at)) => Some(
                TaskView {
                    id,
                    description: r[1],
                    tags: split_on(r[2], ','),
                    due: date_or_sentinel(r[3]),
                    created_at,
                    priority: Priority::of_name(r[5]),
                    status: Status::of_name(r[6]),
                },
            ),
            _ => None,
        }
    }
}

/// Copies a list of texts.
pub fn copy_texts(v: &Vec<String>) -> (r: Vec<String>)
    ensures
        texts(r@) == texts(v@),
{
    let mut out: Vec<String> = Vec::new();
    let mut i: usize = 0;
    while i < v.len()
        invariant
            i <= v.len(),
            out@.len() == i,
            forall|k: int| 0 <= k < i ==> out@[k]@ == v@[k]@,
        decreases v.len() - i,
    {
        out.push(v[i].clone());
        i += 1;
    }
    assert(texts(out@) =~= texts(v@));
    out
}

impl Task {
    /// A task with no content yet: id 0, no description, no tags, due on the
    /// sentinel date, `Low`, `Todo`, made at `now`.
    pub fn new(now: u64) -> (t: Task)
        ensures
            t@ == (TaskView {
                id: 0,
                description: Seq::<char>::empty(),
                tags: Seq::<Seq<char>>::empty(),
                due: SENTINEL_DAY as int,
                created_at: now as nat,
                priority: Priority::Low,
                status: Status::Todo,
            }),
    {
        let t = Task {
            id: 0,
            description: String::new(),
            tags: Vec::new(),
            due: CalendarDate::sentinel(),
            timestamp: now,
            priority: Priority::Low,
            status: Status::Todo,
        };
        assert(texts(t.tags@) =~= Seq::<Seq<char>>::empty());
        t
    }

    /// A copy of the task.
    pub fn duplicate(&self) -> (t: Task)
        ensures
            t@ == self@,
    {
        Task {
            id: self.id,
            description: self.description.clone(),
            tags: copy_texts(&self.tags),
            due: self.due,
            timestamp: self.timestamp,
            priority: self.priority,
            status: self.status,
        }
    }

    /// The first tag, or the empty text for a task without tags.
    pub open spec fn primary_tag(t: TaskView) -> Seq<char> {
        if t.tags.len() > 0 {
            t.tags[0]
        } else {
            Seq::<char>::empty()
        }
    }

    /// Reads a task from a record.
    pub fn from_record(record: &Vec<String>) -> (r: Option<Task>)
        ensures
            r.is_some() == task_of_record(texts(record@)).is_some(),
            r.is_some() ==> task_of_record(texts(record@)) == Some(r.unwrap()@),
    {
        if record.len() < RECORD_FIELDS {
            return None;
        }
        let id = match parse_u32(record[0].as_str()) {
            Some(id) => id,
            None => {
                return None;
            },
        };
        let timestamp = match parse_u64(record[4].as_str()) {
            Some(t) => t,
            None => {
                return None;
            },
        };
        Some(
            Task {
                id,
                description: record[1].clone(),
                tags: split_commas(record[2].as_str()),
                due: CalendarDate::parse_or_sentinel(record[3].as_str()),
                timestamp,
                priority: Priority::from_name(record[5].as_str()),
                status: Status::from_name(record[6].as_str()),
            },
        )
    }

    /// Writes the task as a record.
    pub fn to_record(&self) -> (r: Vec<String>)
        ensures
            texts(r@) == record_of(self@),
    {
        let mut r: Vec<String> = Vec::new();
        r.push(decimal_text(self.id as u64));
        r.push(self.description.clone());
        r.push(join_commas(&self.tags));
        r.push(self.due.to_text());
        r.push(decimal_text(self.timestamp));
        r.push(self.priority.to_string());
        r.push(self.status.to_string());
        assert(texts(r@) =~= record_of(self@));
        r
    }
}

/// Whether a task can be written and read back unchanged: its numbers fit
/// their fields, it has at least one tag, no tag holds a comma, and its due
/// date is one whose written form reads as that date.
pub open spec fn encodable(t: TaskView) -> bool {
    &&& t.id <= u32::MAX
    &&& t.created_at <= u64::MAX
    &&& t.tags.len() >= 1
    &&& forall|i: int| 0 <= i < t.tags.len() ==> !(#[trigger] t.tags[i]).contains(',')
    &&& crate::date::text_reads_back(t.due)
}

/// Reading the record of a task gives the task back.
pub proof fn lemma_record_round_trip(t: TaskView)
    requires
        encodable(t),
    ensures
        task_of_record(record_of(t)) == Some(t),
{
    crate::decimal::lemma_parse_decimal(t.id, u32::MAX as nat);
    crate::decimal::lemma_parse_decimal(t.created_at, u64::MAX as nat);
    crate::text::lemma_split_join(t.tags, ',');
    lemma_priority_name(t.priority);
    lemma_status_name(t.status);
}

} // verus!
