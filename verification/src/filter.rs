//! The criteria of a listing and the test of one task against them.
//!
//! Every criterion that is present must hold of the task; a criterion that
//! lists several values holds if any one of them fits.

use vstd::prelude::*;
use crate::date::{is_keyword, resolve_day_number, resolve_spec, weekday_of, CalendarDate};
use crate::task::{Task, TaskView};
use crate::text::{eq_ignoring_case, lower, same_text, texts};

verus! {

/// The criteria of a listing. A criterion that is `None` admits every task.
#[derive(Debug)]
pub struct ViewFilters {
    /// Tags, of which the task must carry at least one.
    pub tag: Option<Vec<String>>,
    /// Status names, of which one must be the task's, in any case.
    pub status: Option<Vec<String>>,
    /// `overdue`, `thisweek`, or a due-date token that the task's due date
    /// must equal.
    pub due: Option<String>,
    /// Priority names, of which one must be the task's, in any case.
    pub priority: Option<Vec<String>>,
}

/// Criteria as a mathematical value.
pub struct FiltersView {
    pub tag: Option<Seq<Seq<char>>>,
    pub status: Option<Seq<Seq<char>>>,
    pub due: Option<Seq<char>>,
    pub priority: Option<Seq<Seq<char>>>,
}

/// The view of an optional list of strings.
pub open spec fn optional_texts(v: Option<Vec<String>>) -> Option<Seq<Seq<char>>> {
    match v {
        Some(list) => Some(texts(list@)),
        None => None,
    }
}

impl View for ViewFilters {
    type V = FiltersView;

    open spec fn view(&self) -> FiltersView {
        FiltersView {
            tag: optional_texts(self.tag),
            status: optional_texts(self.status),
            due: match self.due {
                Some(d) => Some(d@),
                None => None,
            },
            priority: optional_texts(self.priority),
        }
    }
}

/// Whether `s` is one of the texts of `list`.
pub open spec fn lists(list: Seq<Seq<char>>, s: Seq<char>) -> bool {
    exists|i: int| 0 <= i < list.len() && #[trigger] list[i] == s
}

/// Whether `s` is one of the texts of `list`, whatever the case of letters.
pub open spec fn lists_ignoring_case(list: Seq<Seq<char>>, s: Seq<char>) -> bool {
    exists|i: int| 0 <= i < list.len() && lower(#[trigger] list[i]) == lower(s)
}

/// Whether the task carries one of the wanted tags.
pub open spec fn tag_fits(wanted: Seq<Seq<char>>, tags: Seq<Seq<char>>) -> bool {
    exists|i: int| 0 <= i < wanted.len() && lists(tags, #[trigger] wanted[i])
}

/// Whether a due date fits a due expression on the day `today`: `overdue` asks
/// for a date before today, `thisweek` for one from yesterday up to the day
/// that `thisweek` resolves to, and any other token for the very date it
/// resolves to.
pub open spec fn due_fits(expr: Seq<char>, due: int, today: int) -> bool {
    if is_keyword(expr, "overdue"@) {
        due < today
    } else if is_keyword(expr, "thisweek"@) {
        today - 1 <= due <= today + 5 - weekday_of(today)
    } else {
        due == resolve_spec(expr, today)
    }
}

/// Whether the task meets every criterion that is present.
pub open spec fn matches_spec(f: FiltersView, t: TaskView, today: int) -> bool {
    &&& f.tag matches Some(wanted) ==> tag_fits(wanted, t.tags)
    &&& f.status matches Some(names) ==> lists_ignoring_case(names, t.status.name())
    &&& f.due matches Some(expr) ==> due_fits(expr, t.due, today)
    &&& f.priority matches Some(names) ==> lists_ignoring_case(names, t.priority.name())
}

/// Whether `s` is one of the strings of `list`.
pub fn contains_text(list: &Vec<String>, s: &str) -> (r: bool)
    ensures
        r == lists(texts(list@), s@),
{
    let mut i: usize = 0;
    while i < list.len()
        invariant
            i <= list.len(),
            forall|k: int| 0 <= k < i ==> texts(list@)[k] != s@,
        decreases list.len() - i,
    {
        if same_text(list[i].as_str(), s) {
            assert(texts(list@)[i as int] == s@);
            return true;
        }
        i += 1;
    }
    false
}

/// Whether `s` is one of the strings of `list`, whatever the case of letters.
pub fn contains_ignoring_case(list: &Vec<String>, s: &str) -> (r: bool)
    ensures
        r == lists_ignoring_case(texts(list@), s@),
{
    let mut i: usize = 0;
    while i < list.len()
        invariant
            i <= list.len(),
            forall|k: int| 0 <= k < i ==> lower(texts(list@)[k]) != lower(s@),
        decreases list.len() - i,
    {
        if eq_ignoring_case(list[i].as_str(), s) {
            assert(lower(texts(list@)[i as int]) == lower(s@));
            return true;
        }
        i += 1;
    }
    false
}

/// Whether `tags` holds one of the `wanted` tags.
pub fn any_tag(wanted: &Vec<String>, tags: &Vec<String>) -> (r: bool)
    ensures
        r == tag_fits(texts(wanted@), texts(tags@)),
{
    let mut i: usize = 0;
    while i < wanted.len()
        invariant
            i <= wanted.len(),
            forall|k: int| 0 <= k < i ==> !lists(texts(tags@), #[trigger] texts(wanted@)[k]),
        decreases wanted.len() - i,
    {
        if contains_text(tags, wanted[i].as_str()) {
            assert(lists(texts(tags@), texts(wanted@)[i as int]));
            return true;
        }
        i += 1;
    }
    false
}

/// Whether the due date `due` fits the expression `expr` on the day `today`.
pub fn due_matches(expr: &str, due: CalendarDate, today: CalendarDate) -> (r: bool)
    ensures
        r == due_fits(expr@, due@, today@),
{
    let d: i64 = due.days() as i64;
    let t: i64 = today.days() as i64;
    if eq_ignoring_case(expr, "overdue") {
        d < t
    } else if eq_ignoring_case(expr, "thisweek") {
        let last: i64 = t + 5 - (today.weekday() as i64);
        t - 1 <= d && d <= last
    } else {
        d == resolve_day_number(expr, today)
    }
}

impl ViewFilters {
    /// Criteria that admit every task.
    pub fn new() -> (f: ViewFilters)
        ensures
            f@ == (FiltersView { tag: None, status: None, due: None, priority: None }),
    {
        ViewFilters { tag: None, status: None, due: None, priority: None }
    }

    /// Whether `task` meets the criteria on the day `today`.
    pub fn matches(&self, task: &Task, today: CalendarDate) -> (r: bool)
        ensures
            r == matches_spec(self@, task@, today@),
    {
        if let Some(wanted) = &self.tag {
            if !any_tag(wanted, &task.tags) {
                return false;
            }
        }
        if let Some(names) = &self.status {
            let name = task.status.to_string();
            if !contains_ignoring_case(names, name.as_str()) {
                return false;
            }
        }
        if let Some(expr) = &self.due {
            if !due_matches(expr.as_str(), task.due, today) {
                return false;
            }
        }
        if let Some(names) = &self.priority {
            let name = task.priority.to_string();
            if !contains_ignoring_case(names, name.as_str()) {
                return false;
            }
        }
        true
    }
}

/// Criteria without any criterion admit every task.
pub proof fn lemma_no_criteria(t: TaskView, today: int)
    ensures
        matches_spec(FiltersView { tag: None, status: None, due: None, priority: None }, t, today),
{
}

/// With two wanted tags and one wanted status, and nothing else asked, a task
/// matches exactly if it carries one of the two tags and has that status.
pub proof fn lemma_two_tags_one_status(
    a: Seq<char>,
    b: Seq<char>,
    status: Seq<char>,
    t: TaskView,
    today: int,
)
    ensures
        matches_spec(
            FiltersView { tag: Some(seq![a, b]), status: Some(seq![status]), due: None, priority: None },
            t,
            today,
        ) <==> (lists(t.tags, a) || lists(t.tags, b)) && lower(status) == lower(t.status.name()),
{
    let wanted = seq![a, b];
    let names = seq![status];
    assert(wanted[0] == a && wanted[1] == b && names[0] == status);
    if lists(t.tags, a) {
        assert(lists(t.tags, wanted[0]));
    }
    if lists(t.tags, b) {
        assert(lists(t.tags, wanted[1]));
    }
    if lower(status) == lower(t.status.name()) {
        assert(lower(names[0]) == lower(t.status.name()));
    }
}

} // verus!
