//! The store: the tasks of one user, with creation, removal, lookup, the
//! status toggle, and the conversion from and to records.

use vstd::prelude::*;
use crate::date::{has_week, resolve, resolve_spec, CalendarDate};
use crate::task::{Priority, Status, Task, TaskView};
use crate::text::texts;

verus! {

/// Why an operation on the store failed.
#[derive(Clone, Copy, Debug, PartialEq, Eq, Structural)]
pub enum TaskError {
    /// No task of the store has the id that was asked for.
    TaskNotFound,
    /// The store could not be written.
    SaveFailed,
}

impl TaskError {
    /// A sentence for the user.
    pub open spec fn message(self) -> Seq<char> {
        match self {
            TaskError::TaskNotFound => "Task not found"@,
            TaskError::SaveFailed => "The tasks could not be saved"@,
        }
    }

    /// A sentence for the user.
    pub fn to_string(&self) -> (r: String)
        ensures
            r@ == self.message(),
    {
        match self {
            TaskError::TaskNotFound => String::from_str("Task not found"),
            TaskError::SaveFailed => String::from_str("The tasks could not be saved"),
        }
    }
}

/// The tasks of a user. The order in which they are held has no meaning.
#[derive(Debug)]
pub struct TaskManager {
    pub tasks: Vec<Task>,
}

/// The views of a list of tasks, in order.
pub open spec fn task_views(v: Seq<Task>) -> Seq<TaskView> {
    Seq::new(v.len(), |i: int| v[i]@)
}

impl View for TaskManager {
    type V = Seq<TaskView>;

    open spec fn view(&self) -> Seq<TaskView> {
        task_views(self.tasks@)
    }
}

/// The greatest id among the tasks; zero where there is none.
pub open spec fn max_id(s: Seq<TaskView>) -> nat
    decreases s.len(),
{
    if s.len() == 0 {
        0
    } else if s.last().id > max_id(s.drop_last()) {
        s.last().id
    } else {
        max_id(s.drop_last())
    }
}

/// Whether some task has the id.
pub open spec fn has_id(s: Seq<TaskView>, id: nat) -> bool {
    exists|i: int| 0 <= i < s.len() && (#[trigger] s[i]).id == id
}

/// Whether `i` is the place of the first task with the id.
pub open spec fn is_first(s: Seq<TaskView>, id: nat, i: int) -> bool {
    &&& 0 <= i < s.len()
    &&& s[i].id == id
    &&& forall|j: int| 0 <= j < i ==> (#[trigger] s[j]).id != id
}

/// The place of the first task with the id.
pub open spec fn first_index(s: Seq<TaskView>, id: nat) -> int {
    choose|i: int| is_first(s, id, i)
}

/// Whether no two tasks share an id.
pub open spec fn distinct_ids(s: Seq<TaskView>) -> bool {
    forall|i: int, j: int| 0 <= i < j < s.len() ==> (#[trigger] s[i]).id != (#[trigger] s[j]).id
}

/// The tasks without those that have the id, in their order.
pub open spec fn without_id(s: Seq<TaskView>, id: nat) -> Seq<TaskView>
    decreases s.len(),
{
    if s.len() == 0 {
        s
    } else if s.last().id == id {
        without_id(s.drop_last(), id)
    } else {
        without_id(s.drop_last(), id).push(s.last())
    }
}

/// The status that a task in status `current` takes when it is set to
/// `target`: setting `Hold` on a held task, or `Done` on a done one, takes it
/// back to `Todo`; anything else sets `target`.
pub open spec fn toggled(current: Status, target: Status) -> Status {
    if current == target && (target == Status::Hold || target == Status::Done) {
        Status::Todo
    } else {
        target
    }
}

/// The tasks after the status of the first task with the id was set to
/// `target`; unchanged where no task has the id.
pub open spec fn adjusted(s: Seq<TaskView>, id: nat, target: Status) -> Seq<TaskView> {
    if has_id(s, id) {
        let i = first_index(s, id);
        s.update(i, TaskView { status: toggled(s[i].status, target), ..s[i] })
    } else {
        s
    }
}

/// The task that creation adds to the tasks `s`.
pub open spec fn created(
    s: Seq<TaskView>,
    description: Seq<char>,
    tags: Seq<Seq<char>>,
    due_token: Seq<char>,
    priority_token: Seq<char>,
    today: int,
    now: nat,
) -> TaskView {
    TaskView {
        id: max_id(s) + 1,
        description,
        tags,
        due: resolve_spec(due_token, today),
        created_at: now,
        priority: Priority::of_token(priority_token),
        status: Status::Todo,
    }
}

/// No task has an id above the greatest.
pub proof fn lemma_max_id_bounds(s: Seq<TaskView>)
    ensures
        forall|i: int| 0 <= i < s.len() ==> (#[trigger] s[i]).id <= max_id(s),
    decreases s.len(),
{
    if s.len() > 0 {
        lemma_max_id_bounds(s.drop_last());
        assert forall|i: int| 0 <= i < s.len() implies (#[trigger] s[i]).id <= max_id(s) by {
            if i < s.len() - 1 {
                assert(s.drop_last()[i] == s[i]);
            }
        }
    }
}

/// A task with the id has a first place, and only one.
pub proof fn lemma_first_index(s: Seq<TaskView>, id: nat)
    requires
        has_id(s, id),
    ensures
        is_first(s, id, first_index(s, id)),
        forall|i: int| is_first(s, id, i) ==> i == first_index(s, id),
    decreases s.len(),
{
    let k = choose|k: int| 0 <= k < s.len() && (#[trigger] s[k]).id == id;
    let front = s.take(k);
    if has_id(front, id) {
        lemma_first_index(front, id);
        let i = first_index(front, id);
        assert(front[i] == s[i]);
        assert forall|j: int| 0 <= j < i implies (#[trigger] s[j]).id != id by {
            assert(front[j] == s[j]);
        }
        assert(is_first(s, id, i));
    } else {
        assert forall|j: int| 0 <= j < k implies (#[trigger] s[j]).id != id by {
            assert(front[j] == s[j]);
        }
        assert(is_first(s, id, k));
    }
    let f = first_index(s, id);
    assert forall|i: int| is_first(s, id, i) implies i == f by {
        if i < f {
            assert(s[i].id == id);
        } else if f < i {
            assert(s[f].id == id);
        }
    }
}

/// Each task that is left after a removal was there before, so removal does
/// not raise the greatest id and keeps ids distinct.
pub proof fn lemma_without_id(s: Seq<TaskView>, id: nat)
    ensures
        max_id(without_id(s, id)) <= max_id(s),
        without_id(s, id).len() <= s.len(),
        !has_id(without_id(s, id), id),
        forall|k: int|
            0 <= k < without_id(s, id).len() ==> exists|i: int|
                0 <= i < s.len() && s[i] == #[trigger] without_id(s, id)[k],
    decreases s.len(),
{
    if s.len() > 0 {
        let front = s.drop_last();
        lemma_without_id(front, id);
        let w = without_id(s, id);
        let wf = without_id(front, id);
        assert forall|k: int| 0 <= k < w.len() implies exists|i: int|
            0 <= i < s.len() && s[i] == #[trigger] w[k] by {
            if k < wf.len() {
                let i = choose|i: int| 0 <= i < front.len() && front[i] == wf[k];
                assert(s[i] == w[k]);
            } else {
                assert(s[s.len() - 1] == w[k]);
            }
        }
        if s.last().id != id {
            assert(w.drop_last() =~= wf);
            assert forall|k: int| 0 <= k < w.len() implies (#[trigger] w[k]).id != id by {
                if k < wf.len() {
                    assert(wf[k] == w[k]);
                }
            }
        }
    }
}

/// Removing an id that no task has leaves the tasks as they were.
pub proof fn lemma_remove_absent(s: Seq<TaskView>, id: nat)
    requires
        !has_id(s, id),
    ensures
        without_id(s, id) == s,
    decreases s.len(),
{
    if s.len() > 0 {
        let front = s.drop_last();
        assert forall|i: int| 0 <= i < front.len() implies (#[trigger] front[i]).id != id by {
            assert(s[i] == front[i]);
        }
        lemma_remove_absent(front, id);
        assert(s[s.len() - 1].id != id);
        assert(front.push(s.last()) =~= s);
    }
}

/// The id that creation assigns is one above the greatest, differs from the id
/// of every task of the store, and keeps ids distinct.
pub proof fn lemma_created_id(s: Seq<TaskView>, t: TaskView)
    requires
        t.id == max_id(s) + 1,
    ensures
        !has_id(s, t.id),
        max_id(s.push(t)) == t.id,
        distinct_ids(s) ==> distinct_ids(s.push(t)),
{
    lemma_max_id_bounds(s);
    assert(s.push(t).drop_last() =~= s);
}

/// Setting `Hold` or `Done` once on a task that is not in that status puts it
/// there, and setting it a second time takes the task back to `Todo`.
pub proof fn lemma_toggle_twice(s: Seq<TaskView>, id: nat, target: Status)
    requires
        has_id(s, id),
        target == Status::Hold || target == Status::Done,
        s[first_index(s, id)].status != target,
    ensures
        adjusted(s, id, target) == s.update(
            first_index(s, id),
            TaskView { status: target, ..s[first_index(s, id)] },
        ),
        adjusted(adjusted(s, id, target), id, target) == s.update(
            first_index(s, id),
            TaskView { status: Status::Todo, ..s[first_index(s, id)] },
        ),
{
    lemma_first_index(s, id);
    let i = first_index(s, id);
    let once = adjusted(s, id, target);
    assert(once[i].id == id);
    assert(is_first(once, id, i));
    lemma_first_index(once, id);
    assert(adjusted(once, id, target) =~= s.update(
        i,
        TaskView { status: Status::Todo, ..s[i] },
    ));
}

impl TaskManager {
    /// A store without tasks.
    pub fn new() -> (m: TaskManager)
        ensures
            m@ == Seq::<TaskView>::empty(),
    {
        let m = TaskManager { tasks: Vec::new() };
        assert(m@ =~= Seq::<TaskView>::empty());
        m
    }

    /// The greatest id among the tasks; zero for a store without tasks.
    pub fn get_max_id(&self) -> (r: u32)
        ensures
            r == max_id(self@),
    {
        let mut max: u32 = 0;
        let mut i: usize = 0;
        assert(self@.take(0) =~= Seq::<TaskView>::empty());
        while i < self.tasks.len()
            invariant
                i <= self.tasks.len(),
                max == max_id(self@.take(i as int)),
            decreases self.tasks.len() - i,
        {
            proof {
                assert(self@.take(i + 1).drop_last() =~= self@.take(i as int));
                assert(self@.take(i + 1).last() == self.tasks@[i as int]@);
            }
            if self.tasks[i].id > max {
                max = self.tasks[i].id;
            }
            i += 1;
        }
        assert(self@.take(self.tasks.len() as int) =~= self@);
        max
    }

    /// The place of the first task with the id, if there is one.
    pub fn position(&self, id: u32) -> (r: Option<usize>)
        ensures
            r.is_some() == has_id(self@, id as nat),
            r.is_some() ==> r.unwrap() == first_index(self@, id as nat),
            r.is_some() ==> is_first(self@, id as nat, r.unwrap() as int),
    {
        let mut i: usize = 0;
        while i < self.tasks.len()
            invariant
                i <= self.tasks.len(),
                forall|j: int| 0 <= j < i ==> (#[trigger] self@[j]).id != id,
            decreases self.tasks.len() - i,
        {
            if self.tasks[i].id == id {
                proof {
                    assert(self@[i as int].id == id);
                    assert(is_first(self@, id as nat, i as int));
                    lemma_first_index(self@, id as nat);
                }
                return Some(i);
            }
            i += 1;
        }
        None
    }

    /// Creates a task and adds it to the store. Its id is one above the
    /// greatest id of the store, its due date is what `due_token` resolves to
    /// on the day `today`, its priority what `priority_token` chooses, its
    /// status `Todo`, and its time of creation `now`. Returns a copy of it.
    pub fn add_task(
        &mut self,
        description: &String,
        tags: Vec<String>,
        due_token: &str,
        priority_token: &str,
        today: CalendarDate,
        now: u64,
    ) -> (t: Task)
        requires
            max_id(old(self)@) < u32::MAX,
            has_week(today@),
        ensures
            t@ == created(
                old(self)@,
                description@,
                texts(tags@),
                due_token@,
                priority_token@,
                today@,
                now as nat,
            ),
            final(self)@ == old(self)@.push(t@),
            !has_id(old(self)@, t@.id),
            distinct_ids(old(self)@) ==> distinct_ids(final(self)@),
    {
        let id = self.get_max_id() + 1;
        let task = Task {
            id,
            description: description.clone(),
            tags,
            due: resolve(due_token, today),
            timestamp: now,
            priority: Priority::from_token(priority_token),
            status: Status::Todo,
        };
        let copy = task.duplicate();
        proof {
            lemma_created_id(self@, task@);
        }
        self.tasks.push(task);
        assert(self@ =~= old(self)@.push(copy@));
        copy
    }

    /// Removes the tasks with the id. Where no task has it, nothing changes.
    pub fn remove_task(&mut self, id: u32)
        ensures
            final(self)@ == without_id(old(self)@, id as nat),
            !has_id(old(self)@, id as nat) ==> final(self)@ == old(self)@,
            distinct_ids(old(self)@) ==> distinct_ids(final(self)@),
    {
        let mut kept: Vec<Task> = Vec::new();
        let mut i: usize = 0;
        assert(self@.take(0) =~= Seq::<TaskView>::empty());
        assert(task_views(kept@) =~= Seq::<TaskView>::empty());
        while i < self.tasks.len()
            invariant
                i <= self.tasks.len(),
                task_views(kept@) == without_id(self@.take(i as int), id as nat),
            decreases self.tasks.len() - i,
        {
            proof {
                assert(self@.take(i + 1).drop_last() =~= self@.take(i as int));
                assert(self@.take(i + 1).last() == self.tasks@[i as int]@);
            }
            if self.tasks[i].id != id {
                let ghost before = task_views(kept@);
                kept.push(self.tasks[i].duplicate());
                assert(task_views(kept@) =~= before.push(self.tasks@[i as int]@));
            }
            i += 1;
        }
        proof {
            assert(self@.take(self.tasks.len() as int) =~= self@);
            if !has_id(self@, id as nat) {
                lemma_remove_absent(self@, id as nat);
            }
            if distinct_ids(self@) {
                lemma_distinct_after_removal(self@, id as nat);
            }
        }
        self.tasks = kept;
    }

    /// Sets the status of the first task with the id to `status`; but `Hold`
    /// on a held task and `Done` on a done one take it back to `Todo`. Where no
    /// task has the id, nothing changes and the error says so.
    pub fn adjust_status(&mut self, id: u32, status: Status) -> (r: Result<(), TaskError>)
        ensures
            r.is_ok() == has_id(old(self)@, id as nat),
            r.is_err() ==> r == Err::<(), TaskError>(TaskError::TaskNotFound),
            final(self)@ == adjusted(old(self)@, id as nat, status),
            r.is_err() ==> final(self)@ == old(self)@,
            distinct_ids(old(self)@) ==> distinct_ids(final(self)@),
    {
        match self.position(id) {
            None => Err(TaskError::TaskNotFound),
            Some(i) => {
                let current = self.tasks[i].status;
                let next = if current == status && (status == Status::Hold || status
                    == Status::Done) {
                    Status::Todo
                } else {
                    status
                };
                let mut task = self.tasks[i].duplicate();
                task.status = next;
                self.tasks.set(i, task);
                assert(self@ =~= adjusted(old(self)@, id as nat, status));
                assert(forall|k: int| 0 <= k < self@.len() ==> self@[k].id == old(self)@[k].id);
                Ok(())
            },
        }
    }

    /// The first task with the id, or the error where no task has it.
    pub fn get_task(&self, id: u32) -> (r: Result<&Task, TaskError>)
        ensures
            r.is_ok() == has_id(self@, id as nat),
            r.is_ok() ==> r.unwrap()@ == self@[first_index(self@, id as nat)],
            r.is_err() ==> r == Err::<&Task, TaskError>(TaskError::TaskNotFound),
    {
        match self.position(id) {
            None => Err(TaskError::TaskNotFound),
            Some(i) => Ok(&self.tasks[i]),
        }
    }

    /// Replaces the first task with the id by a fresh one with the same
    /// description: removes every task with the id, then creates a task as
    /// `add_task` does. Where no task has the id, nothing changes and the error
    /// says so.
    pub fn reset(
        &mut self,
        id: u32,
        tags: Vec<String>,
        due_token: &str,
        priority_token: &str,
        today: CalendarDate,
        now: u64,
    ) -> (r: Result<Task, TaskError>)
        requires
            max_id(old(self)@) < u32::MAX,
            has_week(today@),
        ensures
            r.is_ok() == has_id(old(self)@, id as nat),
            r.is_err() ==> r.unwrap_err() == TaskError::TaskNotFound && final(self)@ == old(
                self,
            )@,
            r.is_ok() ==> r.unwrap()@ == created(
                without_id(old(self)@, id as nat),
                old(self)@[first_index(old(self)@, id as nat)].description,
                texts(tags@),
                due_token@,
                priority_token@,
                today@,
                now as nat,
            ) && final(self)@ == without_id(old(self)@, id as nat).push(r.unwrap()@),
    {
        let description = match self.get_task(id) {
            Ok(task) => task.description.clone(),
            Err(e) => {
                return Err(e);
            },
        };
        proof {
            lemma_without_id(self@, id as nat);
        }
        self.remove_task(id);
        let task = self.add_task(&description, tags, due_token, priority_token, today, now);
        Ok(task)
    }
}

/// Removal keeps ids distinct.
pub proof fn lemma_distinct_after_removal(s: Seq<TaskView>, id: nat)
    requires
        distinct_ids(s),
    ensures
        distinct_ids(without_id(s, id)),
    decreases s.len(),
{
    if s.len() > 0 {
        let front = s.drop_last();
        assert forall|i: int, j: int| 0 <= i < j < front.len() implies (#[trigger] front[i]).id
            != (#[trigger] front[j]).id by {
            assert(front[i] == s[i] && front[j] == s[j]);
        }
        lemma_distinct_after_removal(front, id);
        lemma_without_id(front, id);
        let w = without_id(s, id);
        let wf = without_id(front, id);
        if s.last().id != id {
            assert forall|i: int, j: int| 0 <= i < j < w.len() implies (#[trigger] w[i]).id != (
            #[trigger] w[j]).id by {
                if j < wf.len() {
                    assert(w[i] == wf[i] && w[j] == wf[j]);
                } else {
                    assert(w[i] == wf[i]);
                    let k = choose|k: int| 0 <= k < front.len() && front[k] == wf[i];
                    assert(s[k] == front[k]);
                    assert(s[s.len() - 1] == w[j]);
                }
            }
        }
    }
}

} // verus!
