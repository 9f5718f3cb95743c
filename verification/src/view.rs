//! The listing: the tasks that meet the criteria, in one order by due date,
//! first tag and priority, under a heading for each due date and each tag.

use vstd::prelude::*;
use std::cmp::Ordering;
use crate::date::{date_text, weekday_name_of, CalendarDate};
use crate::decimal::{decimal, decimal_text};
use crate::filter::{matches_spec, FiltersView, ViewFilters};
use crate::task::{Priority, Task, TaskView};
use crate::task_manager::{task_views, TaskManager};
use crate::text::{
    lemma_text_le_antisymmetric, lemma_text_le_total, lemma_text_le_transitive, same_text,
    text_le, text_not_after, texts,
};

verus! {

/// The order of the listing: by due date, then by first tag, then by
/// priority. `a` is not after `b`.
pub open spec fn key_le(a: TaskView, b: TaskView) -> bool {
    if a.due != b.due {
        a.due < b.due
    } else if Task::primary_tag(a) != Task::primary_tag(b) {
        text_le(Task::primary_tag(a), Task::primary_tag(b))
    } else {
        a.priority.rank() <= b.priority.rank()
    }
}

/// Whether each task is not after any task that follows it.
pub open spec fn ordered(s: Seq<TaskView>) -> bool {
    forall|i: int, j: int| 0 <= i < j < s.len() ==> key_le(#[trigger] s[i], #[trigger] s[j])
}

/// The place at which `t` enters the tasks `s`: behind the last task that is
/// not after it, so that a task never passes one of equal rank that came
/// before it.
pub open spec fn insert_place(s: Seq<TaskView>, t: TaskView) -> int
    decreases s.len(),
{
    if s.len() == 0 {
        0
    } else if key_le(s.last(), t) {
        s.len() as int
    } else {
        insert_place(s.drop_last(), t)
    }
}

/// The tasks in the order of the listing. Tasks of equal rank keep the order
/// in which they came.
pub open spec fn sort_spec(s: Seq<TaskView>) -> Seq<TaskView>
    decreases s.len(),
{
    if s.len() == 0 {
        s
    } else {
        let front = sort_spec(s.drop_last());
        front.insert(insert_place(front, s.last()), s.last())
    }
}

/// The tasks that meet the criteria, in their order.
pub open spec fn select_spec(s: Seq<TaskView>, f: FiltersView, today: int) -> Seq<TaskView>
    decreases s.len(),
{
    if s.len() == 0 {
        s
    } else if matches_spec(f, s.last(), today) {
        select_spec(s.drop_last(), f, today).push(s.last())
    } else {
        select_spec(s.drop_last(), f, today)
    }
}

/// Criteria without any criterion select every task.
pub proof fn lemma_select_all(s: Seq<TaskView>, today: int)
    ensures
        select_spec(s, FiltersView { tag: None, status: None, due: None, priority: None }, today)
            == s,
    decreases s.len(),
{
    if s.len() > 0 {
        lemma_select_all(s.drop_last(), today);
        assert(s.drop_last().push(s.last()) =~= s);
    }
}

/// Every task that is selected meets the criteria and is a task of the store,
/// and no more tasks are selected than there are.
pub proof fn lemma_select_matches(s: Seq<TaskView>, f: FiltersView, today: int)
    ensures
        select_spec(s, f, today).len() <= s.len(),
        forall|k: int|
            0 <= k < select_spec(s, f, today).len() ==> matches_spec(
                f,
                #[trigger] select_spec(s, f, today)[k],
                today,
            ) && s.contains(select_spec(s, f, today)[k]),
    decreases s.len(),
{
    if s.len() > 0 {
        let front = s.drop_last();
        lemma_select_matches(front, f, today);
        let r = select_spec(s, f, today);
        let rf = select_spec(front, f, today);
        assert forall|k: int| 0 <= k < r.len() implies matches_spec(f, #[trigger] r[k], today)
            && s.contains(r[k]) by {
            if k < rf.len() {
                assert(r[k] == rf[k]);
                let i = choose|i: int| 0 <= i < front.len() && front[i] == rf[k];
                assert(s[i] == rf[k]);
            } else {
                assert(s[s.len() - 1] == r[k]);
            }
        }
    }
}

/// Of two tasks, one is not after the other.
pub proof fn lemma_key_le_total(a: TaskView, b: TaskView)
    ensures
        key_le(a, b) || key_le(b, a),
{
    lemma_text_le_total(Task::primary_tag(a), Task::primary_tag(b));
}

/// The order is transitive.
pub proof fn lemma_key_le_transitive(a: TaskView, b: TaskView, c: TaskView)
    requires
        key_le(a, b),
        key_le(b, c),
    ensures
        key_le(a, c),
{
    let ta = Task::primary_tag(a);
    let tb = Task::primary_tag(b);
    let tc = Task::primary_tag(c);
    if a.due == b.due && b.due == c.due {
        if ta != tb && tb != tc {
            lemma_text_le_transitive(ta, tb, tc);
            if ta == tc {
                lemma_text_le_antisymmetric(ta, tb);
            }
        }
    }
}

/// The place at which a task enters lies behind a task that is not after it
/// and before every task that is after it.
pub proof fn lemma_insert_place(s: Seq<TaskView>, t: TaskView)
    ensures
        0 <= insert_place(s, t) <= s.len(),
        insert_place(s, t) > 0 ==> key_le(s[insert_place(s, t) - 1], t),
        forall|k: int| insert_place(s, t) <= k < s.len() ==> !key_le(#[trigger] s[k], t),
    decreases s.len(),
{
    if s.len() > 0 && !key_le(s.last(), t) {
        let front = s.drop_last();
        lemma_insert_place(front, t);
        let p = insert_place(front, t);
        assert(p > 0 ==> front[p - 1] == s[p - 1]);
        assert forall|k: int| p <= k < s.len() implies !key_le(#[trigger] s[k], t) by {
            if k < s.len() - 1 {
                assert(front[k] == s[k]);
            }
        }
    }
}

/// A place behind a task that is not after `t` and before every task that is
/// after it is the place at which `t` enters.
pub proof fn lemma_place_found(s: Seq<TaskView>, t: TaskView, p: int)
    requires
        0 <= p <= s.len(),
        p > 0 ==> key_le(s[p - 1], t),
        forall|k: int| p <= k < s.len() ==> !key_le(#[trigger] s[k], t),
    ensures
        insert_place(s, t) == p,
    decreases s.len(),
{
    if s.len() > 0 && p < s.len() {
        let front = s.drop_last();
        assert(!key_le(s[s.len() - 1], t));
        assert(p > 0 ==> front[p - 1] == s[p - 1]);
        assert forall|k: int| p <= k < front.len() implies !key_le(#[trigger] front[k], t) by {
            assert(front[k] == s[k]);
        }
        lemma_place_found(front, t, p);
    }
}

/// The sorted tasks are in order, and they are the same tasks, each as often
/// as before.
pub proof fn lemma_sort(s: Seq<TaskView>)
    ensures
        ordered(sort_spec(s)),
        sort_spec(s).to_multiset() == s.to_multiset(),
        sort_spec(s).len() == s.len(),
    decreases s.len(),
{
    broadcast use vstd::seq_lib::to_multiset_build, vstd::seq_lib::to_multiset_insert;

    if s.len() > 0 {
        let t = s.last();
        lemma_sort(s.drop_last());
        let front = sort_spec(s.drop_last());
        lemma_insert_place(front, t);
        let p = insert_place(front, t);
        let r = front.insert(p, t);
        assert forall|i: int, j: int| 0 <= i < j < r.len() implies key_le(
            #[trigger] r[i],
            #[trigger] r[j],
        ) by {
            if j < p {
                assert(r[i] == front[i] && r[j] == front[j]);
            } else if j == p {
                assert(r[i] == front[i]);
                if i < p - 1 {
                    lemma_key_le_transitive(front[i], front[p - 1], t);
                }
            } else if i == p {
                assert(r[j] == front[j - 1]);
                lemma_key_le_total(front[j - 1], t);
            } else if i < p {
                assert(r[i] == front[i] && r[j] == front[j - 1]);
            } else {
                assert(r[i] == front[i - 1] && r[j] == front[j - 1]);
            }
        }
        assert(s.drop_last().push(t) =~= s);
        assert(r.to_multiset() == front.to_multiset().insert(t));
        assert(s.to_multiset() == s.drop_last().to_multiset().insert(t));
    }
}

/// Whether two tasks have the same rank in the order of the listing: each is
/// not after the other.
pub open spec fn same_rank(a: TaskView, b: TaskView) -> bool {
    key_le(a, b) && key_le(b, a)
}

/// The tasks of `s` that have the rank of `x`, in their order.
pub open spec fn of_rank(s: Seq<TaskView>, x: TaskView) -> Seq<TaskView>
    decreases s.len(),
{
    if s.len() == 0 {
        s
    } else if same_rank(s.last(), x) {
        of_rank(s.drop_last(), x).push(s.last())
    } else {
        of_rank(s.drop_last(), x)
    }
}

/// The tasks of one rank in two runs of tasks are those of the first run
/// followed by those of the second.
pub proof fn lemma_of_rank_concat(a: Seq<TaskView>, b: Seq<TaskView>, x: TaskView)
    ensures
        of_rank(a + b, x) == of_rank(a, x) + of_rank(b, x),
    decreases b.len(),
{
    if b.len() == 0 {
        assert(a + b =~= a);
        assert(of_rank(a, x) + of_rank(b, x) =~= of_rank(a, x));
    } else {
        lemma_of_rank_concat(a, b.drop_last(), x);
        assert((a + b).drop_last() =~= a + b.drop_last());
        assert((a + b).last() == b.last());
        if same_rank(b.last(), x) {
            assert(of_rank(a + b, x) =~= of_rank(a, x) + of_rank(b, x));
        }
    }
}

/// Where no task has the rank of `x`, there are no tasks of that rank.
pub proof fn lemma_of_rank_none(s: Seq<TaskView>, x: TaskView)
    requires
        forall|k: int| 0 <= k < s.len() ==> !same_rank(#[trigger] s[k], x),
    ensures
        of_rank(s, x).len() == 0,
    decreases s.len(),
{
    if s.len() > 0 {
        let front = s.drop_last();
        assert forall|k: int| 0 <= k < front.len() implies !same_rank(#[trigger] front[k], x) by {
            assert(front[k] == s[k]);
        }
        lemma_of_rank_none(front, x);
        assert(!same_rank(s[s.len() - 1], x));
    }
}

/// Sorting is stable: the tasks of any one rank stand in the sorted tasks in
/// the order in which they stood before.
pub proof fn lemma_sort_stable(s: Seq<TaskView>, x: TaskView)
    ensures
        of_rank(sort_spec(s), x) == of_rank(s, x),
    decreases s.len(),
{
    if s.len() > 0 {
        let t = s.last();
        let rest = s.drop_last();
        lemma_sort_stable(rest, x);
        let front = sort_spec(rest);
        lemma_insert_place(front, t);
        let p = insert_place(front, t);
        let head = front.take(p);
        let tail = front.skip(p);
        let one = seq![t];
        assert(front =~= head + tail);
        assert(front.insert(p, t) =~= (head + one) + tail);
        assert(s =~= rest + one);
        lemma_of_rank_concat(head, tail, x);
        lemma_of_rank_concat(head, one, x);
        lemma_of_rank_concat(head + one, tail, x);
        lemma_of_rank_concat(rest, one, x);
        if same_rank(t, x) {
            assert forall|k: int| 0 <= k < tail.len() implies !same_rank(#[trigger] tail[k], x) by {
                assert(tail[k] == front[p + k]);
                if same_rank(tail[k], x) {
                    lemma_key_le_transitive(tail[k], x, t);
                }
            }
            lemma_of_rank_none(tail, x);
            assert(of_rank(tail, x) =~= Seq::<TaskView>::empty());
            assert(of_rank(sort_spec(s), x) =~= of_rank(s, x));
        } else {
            assert(one.drop_last() =~= Seq::<TaskView>::empty());
            assert(of_rank(one.drop_last(), x) =~= Seq::<TaskView>::empty());
            assert(of_rank(one, x) =~= Seq::<TaskView>::empty());
            assert(of_rank(sort_spec(s), x) =~= of_rank(s, x));
        }
    }
}

/// Tasks that are in order already stay as they are.
pub proof fn lemma_sort_keeps_ordered(s: Seq<TaskView>)
    requires
        ordered(s),
    ensures
        sort_spec(s) == s,
    decreases s.len(),
{
    if s.len() > 0 {
        let front = s.drop_last();
        assert forall|i: int, j: int| 0 <= i < j < front.len() implies key_le(
            #[trigger] front[i],
            #[trigger] front[j],
        ) by {
            assert(front[i] == s[i] && front[j] == s[j]);
        }
        lemma_sort_keeps_ordered(front);
        if front.len() > 0 {
            assert(front[front.len() - 1] == s[s.len() - 2]);
            assert(key_le(s[s.len() - 2], s[s.len() - 1]));
        }
        assert(front.insert(front.len() as int, s.last()) =~= s);
    }
}

/// Whether `a` is not after `b` in the order of the listing.
pub fn not_after(a: &Task, b: &Task) -> (r: bool)
    ensures
        r == key_le(a@, b@),
{
    if a.due.days() != b.due.days() {
        return a.due.days() < b.due.days();
    }
    let empty = String::new();
    let ta = if a.tags.len() > 0 {
        &a.tags[0]
    } else {
        &empty
    };
    let tb = if b.tags.len() > 0 {
        &b.tags[0]
    } else {
        &empty
    };
    assert(ta@ == Task::primary_tag(a@));
    assert(tb@ == Task::primary_tag(b@));
    if !same_text(ta.as_str(), tb.as_str()) {
        return text_not_after(ta.as_str(), tb.as_str());
    }
    match a.priority.cmp(&b.priority) {
        Ordering::Greater => false,
        _ => true,
    }
}

/// The tasks in the order of the listing: by due date, then first tag, then
/// priority, with tasks of equal rank in the order in which they came.
pub fn sort_tasks(tasks: &Vec<Task>) -> (sorted: Vec<Task>)
    ensures
        task_views(sorted@) == sort_spec(task_views(tasks@)),
{
    let mut out: Vec<Task> = Vec::new();
    let mut i: usize = 0;
    let ghost all = task_views(tasks@);
    assert(all.take(0) =~= Seq::<TaskView>::empty());
    assert(task_views(out@) =~= Seq::<TaskView>::empty());
    while i < tasks.len()
        invariant
            i <= tasks.len(),
            all == task_views(tasks@),
            out@.len() == i,
            task_views(out@) == sort_spec(all.take(i as int)),
        decreases tasks.len() - i,
    {
        let task = tasks[i].duplicate();
        let ghost before = task_views(out@);
        let mut p: usize = out.len();
        while p > 0 && !not_after(&out[p - 1], &task)
            invariant
                p <= out@.len(),
                before == task_views(out@),
                forall|k: int| p <= k < before.len() ==> !key_le(#[trigger] before[k], task@),
            decreases p,
        {
            p -= 1;
        }
        proof {
            assert(p > 0 ==> before[p - 1] == out@[p - 1]@);
            lemma_place_found(before, task@, p as int);
            assert(all.take(i + 1).drop_last() =~= all.take(i as int));
            assert(all.take(i + 1).last() == task@);
        }
        out.insert(p, task);
        assert(task_views(out@) =~= before.insert(p as int, task@));
        i += 1;
    }
    assert(all.take(tasks.len() as int) =~= all);
    out
}

/// The tasks of the store that meet the criteria on the day `today`, in the
/// order of the store.
pub fn select_tasks(manager: &TaskManager, filters: &ViewFilters, today: CalendarDate) -> (found:
    Vec<Task>)
    ensures
        task_views(found@) == select_spec(manager@, filters@, today@),
{
    let mut found: Vec<Task> = Vec::new();
    let mut i: usize = 0;
    assert(manager@.take(0) =~= Seq::<TaskView>::empty());
    assert(task_views(found@) =~= Seq::<TaskView>::empty());
    while i < manager.tasks.len()
        invariant
            i <= manager.tasks.len(),
            task_views(found@) == select_spec(manager@.take(i as int), filters@, today@),
        decreases manager.tasks.len() - i,
    {
        proof {
            assert(manager@.take(i + 1).drop_last() =~= manager@.take(i as int));
            assert(manager@.take(i + 1).last() == manager.tasks@[i as int]@);
        }
        if filters.matches(&manager.tasks[i], today) {
            let ghost before = task_views(found@);
            found.push(manager.tasks[i].duplicate());
            assert(task_views(found@) =~= before.push(manager.tasks@[i as int]@));
        }
        i += 1;
    }
    assert(manager@.take(manager.tasks.len() as int) =~= manager@);
    found
}

/// The ANSI colour code of a colour name; the reset code for a name that is
/// none of the known colours.
pub open spec fn color_code(color: Seq<char>) -> Seq<char> {
    if color == "red"@ {
        "31"@
    } else if color == "green"@ {
        "32"@
    } else if color == "yellow"@ {
        "33"@
    } else if color == "blue"@ {
        "34"@
    } else if color == "magenta"@ {
        "35"@
    } else if color == "cyan"@ {
        "36"@
    } else if color == "white"@ {
        "37"@
    } else if color == "orange"@ {
        "38;5;208"@
    } else {
        "0"@
    }
}

/// A text between the escape sequence that switches a colour on and the one
/// that switches colours off.
pub open spec fn colored(s: Seq<char>, color: Seq<char>) -> Seq<char> {
    "\x1b["@ + color_code(color) + "m"@ + s + "\x1b[0m"@
}

/// The colour in which a priority is shown.
pub open spec fn priority_color(p: Priority) -> Seq<char> {
    match p {
        Priority::Low => "blue"@,
        Priority::Medium => "orange"@,
        Priority::High => "red"@,
    }
}

/// The heading of the section of one due date: the date and its day of the
/// week, after an empty line.
pub open spec fn due_header(day: int) -> Seq<char> {
    "\nDue: "@ + date_text(day) + " ("@ + weekday_name_of(day) + ")"@
}

/// The line under the heading of a due date.
pub open spec fn rule() -> Seq<char> {
    "--------------------------------"@
}

/// The heading of the tasks of one tag.
pub open spec fn tag_header(tag: Seq<char>) -> Seq<char> {
    "# "@ + tag
}

/// The line of one task: the mark of its status, its id, its priority in
/// colour, and its description.
pub open spec fn task_line(t: TaskView) -> Seq<char> {
    "["@ + t.status.glyph() + "][#"@ + decimal(t.id) + " - "@ + colored(
        t.priority.name(),
        priority_color(t.priority),
    ) + "] "@ + t.description
}

/// The due date of the last of the tasks, if there is a task.
pub open spec fn last_due(s: Seq<TaskView>) -> Option<int> {
    if s.len() == 0 {
        None
    } else {
        Some(s.last().due)
    }
}

/// The first tag of the last task that has a tag; the empty text where no
/// task has one.
pub open spec fn last_tag(s: Seq<TaskView>) -> Seq<char>
    decreases s.len(),
{
    if s.len() == 0 {
        Seq::<char>::empty()
    } else if s.last().tags.len() > 0 {
        s.last().tags[0]
    } else {
        last_tag(s.drop_last())
    }
}

/// The lines that one task adds to a listing: the heading of its due date
/// where that differs from the due date of the task before it, the heading of
/// its first tag where it has one and that differs from the tag shown last,
/// and the line of the task.
pub open spec fn entry_lines(prev_due: Option<int>, prev_tag: Seq<char>, t: TaskView) -> Seq<
    Seq<char>,
> {
    let dues = if prev_due != Some(t.due) {
        seq![due_header(t.due), rule()]
    } else {
        Seq::<Seq<char>>::empty()
    };
    let tags = if t.tags.len() > 0 && t.tags[0] != prev_tag {
        seq![tag_header(t.tags[0])]
    } else {
        Seq::<Seq<char>>::empty()
    };
    dues + tags + seq![task_line(t)]
}

/// The lines of a listing of the tasks, in the order given.
pub open spec fn lines_of(s: Seq<TaskView>) -> Seq<Seq<char>>
    decreases s.len(),
{
    if s.len() == 0 {
        Seq::<Seq<char>>::empty()
    } else {
        lines_of(s.drop_last()) + entry_lines(
            last_due(s.drop_last()),
            last_tag(s.drop_last()),
            s.last(),
        )
    }
}

/// Wraps a text in the ANSI escape sequences of a colour: `red`, `green`,
/// `yellow`, `blue`, `magenta`, `cyan`, `white` or `orange`.
pub fn color_string(string: &str, color: &str) -> (r: String)
    ensures
        r@ == colored(string@, color@),
{
    let code = if same_text(color, "red") {
        "31"
    } else if same_text(color, "green") {
        "32"
    } else if same_text(color, "yellow") {
        "33"
    } else if same_text(color, "blue") {
        "34"
    } else if same_text(color, "magenta") {
        "35"
    } else if same_text(color, "cyan") {
        "36"
    } else if same_text(color, "white") {
        "37"
    } else if same_text(color, "orange") {
        "38;5;208"
    } else {
        "0"
    };
    let mut r = String::from_str("\x1b[");
    r.append(code);
    r.append("m");
    r.append(string);
    r.append("\x1b[0m");
    r
}

/// The line of one task in a listing.
pub fn format_task(task: &Task) -> (r: String)
    ensures
        r@ == task_line(task@),
{
    let name = task.priority.to_string();
    let shown = match task.priority {
        Priority::Low => color_string(name.as_str(), "blue"),
        Priority::Medium => color_string(name.as_str(), "orange"),
        Priority::High => color_string(name.as_str(), "red"),
    };
    let mut r = String::from_str("[");
    r.append(task.status.symbol());
    r.append("][#");
    r.append(decimal_text(task.id as u64).as_str());
    r.append(" - ");
    r.append(shown.as_str());
    r.append("] ");
    r.append(task.description.as_str());
    r
}

/// The heading of the section of a due date.
pub fn format_due(due: CalendarDate) -> (r: String)
    ensures
        r@ == due_header(due@),
{
    let mut r = String::from_str("\nDue: ");
    r.append(due.to_text().as_str());
    r.append(" (");
    r.append(due.weekday_name().as_str());
    r.append(")");
    r
}

/// The lines of a listing of the tasks in the order given: a heading for each
/// run of tasks with one due date, a heading for each change of first tag, and
/// a line for each task.
pub fn render_lines(tasks: &Vec<Task>) -> (lines: Vec<String>)
    ensures
        texts(lines@) == lines_of(task_views(tasks@)),
{
    let mut lines: Vec<String> = Vec::new();
    let mut current_due: Option<CalendarDate> = None;
    let mut current_tag = String::new();
    let mut i: usize = 0;
    let ghost all = task_views(tasks@);
    assert(all.take(0) =~= Seq::<TaskView>::empty());
    assert(texts(lines@) =~= Seq::<Seq<char>>::empty());
    while i < tasks.len()
        invariant
            i <= tasks.len(),
            all == task_views(tasks@),
            texts(lines@) == lines_of(all.take(i as int)),
            current_due.is_some() == last_due(all.take(i as int)).is_some(),
            current_due.is_some() ==> last_due(all.take(i as int)) == Some(current_due.unwrap()@),
            current_tag@ == last_tag(all.take(i as int)),
        decreases tasks.len() - i,
    {
        let task = &tasks[i];
        let ghost before = texts(lines@);
        let ghost prev_due = last_due(all.take(i as int));
        let ghost prev_tag = current_tag@;
        proof {
            assert(all.take(i + 1).drop_last() =~= all.take(i as int));
            assert(all.take(i + 1).last() == task@);
        }
        let new_due = match current_due {
            Some(d) => d.days() != task.due.days(),
            None => true,
        };
        assert(new_due == (prev_due != Some(task@.due)));
        if new_due {
            lines.push(format_due(task.due));
            lines.push(String::from_str("--------------------------------"));
            current_due = Some(task.due);
        }
        let ghost middle = texts(lines@);
        assert(middle =~= before + if new_due {
            seq![due_header(task@.due), rule()]
        } else {
            Seq::<Seq<char>>::empty()
        });
        if task.tags.len() > 0 {
            assert(task@.tags[0] == task.tags@[0]@);
            if !same_text(task.tags[0].as_str(), current_tag.as_str()) {
                let mut head = String::from_str("# ");
                head.append(task.tags[0].as_str());
                lines.push(head);
                current_tag = task.tags[0].clone();
            }
        }
        let ghost late = texts(lines@);
        assert(late =~= middle + if task@.tags.len() > 0 && task@.tags[0] != prev_tag {
            seq![tag_header(task@.tags[0])]
        } else {
            Seq::<Seq<char>>::empty()
        });
        lines.push(format_task(task));
        assert(texts(lines@) =~= before + entry_lines(prev_due, prev_tag, task@));
        i += 1;
    }
    assert(all.take(tasks.len() as int) =~= all);
    lines
}

/// The listing of the given tasks: sorted by due date, first tag and
/// priority, under their headings.
pub fn print_tasks(tasks: &Vec<Task>) -> (lines: Vec<String>)
    ensures
        texts(lines@) == lines_of(sort_spec(task_views(tasks@))),
{
    let sorted = sort_tasks(tasks);
    render_lines(&sorted)
}

impl TaskManager {
    /// The listing of the tasks of the store that meet the criteria on the day
    /// `today`: sorted by due date, first tag and priority, under their
    /// headings. Criteria without any criterion list every task.
    pub fn list_tasks(&self, filters: &ViewFilters, today: CalendarDate) -> (lines: Vec<String>)
        ensures
            texts(lines@) == lines_of(sort_spec(select_spec(self@, filters@, today@))),
    {
        let found = select_tasks(self, filters, today);
        print_tasks(&found)
    }
}

} // verus!
