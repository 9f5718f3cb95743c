//! The store as a flat-record file: a header row, then one record for each
//! task. Reading is tolerant: a row that is empty, that starts with the
//! header's first label, or that does not hold a task is passed over.
//!
//! The rows are the library's own matter; how a row stands in the text of a
//! file, with its separators and quotes, is that of `csv`.

use vstd::prelude::*;
use crate::decimal::{is_digit, lemma_decimal_value};
use crate::task::{encodable, lemma_record_round_trip, record_of, task_of_record, Task, TaskView};
use crate::task_manager::{task_views, TaskError, TaskManager};
use crate::text::{same_text, texts};

verus! {

/// The rows that `csv` reads from a text, each with as many fields as it
/// holds; nothing where `csv` fails on the text.
pub uninterp spec fn csv_rows(text: Seq<char>) -> Option<Seq<Seq<Seq<char>>>>;

/// The text that `csv` writes for rows; nothing where `csv` fails on them.
pub uninterp spec fn csv_text(rows: Seq<Seq<Seq<char>>>) -> Option<Seq<char>>;

/// `csv`'s `Reader::records` over a text, read without a header row and with
/// rows of any number of fields. Unverified: the contract only names the
/// result.
#[verifier::external_body]
fn csv_read(text: &str) -> (r: Option<Vec<Vec<String>>>)
    ensures
        r.is_some() == csv_rows(text@).is_some(),
        r.is_some() ==> csv_rows(text@) == Some(rows_view(r.unwrap()@)),
{
    let mut reader = csv::ReaderBuilder::new().has_headers(false).flexible(true).from_reader(
        text.as_bytes(),
    );
    let mut rows = Vec::new();
    for result in reader.records() {
        match result {
            Ok(record) => rows.push(record.iter().map(|field| field.to_string()).collect()),
            Err(_) => return None,
        }
    }
    Some(rows)
}

/// `csv`'s `Writer::write_record` for each row, into memory, without a header
/// row of its own. Unverified: the contract only names the result.
#[verifier::external_body]
fn csv_write(rows: &Vec<Vec<String>>) -> (r: Option<String>)
    ensures
        r.is_some() == csv_text(rows_view(rows@)).is_some(),
        r.is_some() ==> csv_text(rows_view(rows@)) == Some(r.unwrap()@),
{
    let mut writer = csv::WriterBuilder::new().has_headers(false).from_writer(Vec::new());
    for row in rows {
        if writer.write_record(row).is_err() {
            return None;
        }
    }
    match writer.into_inner() {
        Ok(bytes) => String::from_utf8(bytes).ok(),
        Err(_) => None,
    }
}

/// The labels of the header row.
pub open spec fn header() -> Seq<Seq<char>> {
    seq!["id"@, "description"@, "tags"@, "due"@, "timestamp"@, "priority"@, "status"@]
}

/// The views of a list of rows, in order.
pub open spec fn rows_view(rows: Seq<Vec<String>>) -> Seq<Seq<Seq<char>>> {
    Seq::new(rows.len(), |i: int| texts(rows[i]@))
}

/// The task that a row holds, if it holds one. An empty row and a row whose
/// first field is `id` hold none.
pub open spec fn row_task(row: Seq<Seq<char>>) -> Option<TaskView> {
    if row.len() == 0 || row[0] == "id"@ {
        None
    } else {
        task_of_record(row)
    }
}

/// The tasks of the rows that hold one, in the order of the rows.
pub open spec fn load_spec(rows: Seq<Seq<Seq<char>>>) -> Seq<TaskView>
    decreases rows.len(),
{
    if rows.len() == 0 {
        Seq::<TaskView>::empty()
    } else {
        match row_task(rows.last()) {
            Some(t) => load_spec(rows.drop_last()).push(t),
            None => load_spec(rows.drop_last()),
        }
    }
}

/// The rows of a store: the header, then the record of each task.
pub open spec fn save_spec(s: Seq<TaskView>) -> Seq<Seq<Seq<char>>> {
    seq![header()] + Seq::new(s.len(), |i: int| record_of(s[i]))
}

/// Reading two runs of rows one after the other gives the tasks of the first
/// followed by those of the second.
pub proof fn lemma_load_concat(a: Seq<Seq<Seq<char>>>, b: Seq<Seq<Seq<char>>>)
    ensures
        load_spec(a + b) == load_spec(a) + load_spec(b),
    decreases b.len(),
{
    if b.len() == 0 {
        assert(a + b =~= a);
        assert(load_spec(a) + load_spec(b) =~= load_spec(a));
    } else {
        lemma_load_concat(a, b.drop_last());
        assert((a + b).drop_last() =~= a + b.drop_last());
        assert((a + b).last() == b.last());
        match row_task(b.last()) {
            Some(t) => {
                assert(load_spec(a + b) =~= load_spec(a) + load_spec(b));
            },
            None => {},
        }
    }
}

/// A row that holds no task, such as a second header row or an empty row,
/// changes nothing wherever it stands among the rows.
pub proof fn lemma_load_skips(rows: Seq<Seq<Seq<char>>>, i: int, row: Seq<Seq<char>>)
    requires
        0 <= i <= rows.len(),
        row_task(row) is None,
    ensures
        load_spec(rows.insert(i, row)) == load_spec(rows),
{
    let a = rows.take(i);
    let b = rows.skip(i);
    let one = seq![row];
    assert(one.drop_last() =~= Seq::<Seq<Seq<char>>>::empty());
    assert(load_spec(one.drop_last()) =~= Seq::<TaskView>::empty());
    assert(one.last() == row);
    assert(load_spec(one) =~= Seq::<TaskView>::empty());
    assert(rows =~= a + b);
    assert(rows.insert(i, row) =~= (a + one) + b);
    lemma_load_concat(a, one);
    lemma_load_concat(a + one, b);
    lemma_load_concat(a, b);
    assert(load_spec(a) + load_spec(one) =~= load_spec(a));
}

/// Writing a store and reading the rows gives the store back, for tasks that
/// can be written and read back one by one.
pub proof fn lemma_load_save(s: Seq<TaskView>)
    requires
        forall|i: int| 0 <= i < s.len() ==> encodable(#[trigger] s[i]),
    ensures
        load_spec(save_spec(s)) == s,
    decreases s.len(),
{
    let rows = save_spec(s);
    if s.len() == 0 {
        assert(rows.drop_last() =~= Seq::<Seq<Seq<char>>>::empty());
        assert(rows.last() == header());
        assert(header()[0] == "id"@);
        assert(load_spec(rows.drop_last()) =~= Seq::<TaskView>::empty());
        assert(load_spec(rows) =~= s);
    } else {
        let front = s.drop_last();
        let t = s.last();
        lemma_load_save(front);
        assert(rows.drop_last() =~= save_spec(front));
        assert(rows.last() == record_of(t));
        lemma_record_round_trip(t);
        lemma_decimal_value(t.id);
        reveal_strlit("id");
        assert(is_digit(record_of(t)[0][0]));
        assert("id"@[0] == 'i');
        assert(row_task(record_of(t)) == Some(t));
        assert(front.push(t) =~= s);
    }
}

/// Builds a store from the rows of a file.
pub fn load_tasks(rows: &Vec<Vec<String>>) -> (m: TaskManager)
    ensures
        m@ == load_spec(rows_view(rows@)),
{
    let mut tasks: Vec<Task> = Vec::new();
    let mut i: usize = 0;
    let ghost all = rows_view(rows@);
    assert(all.take(0) =~= Seq::<Seq<Seq<char>>>::empty());
    assert(task_views(tasks@) =~= Seq::<TaskView>::empty());
    while i < rows.len()
        invariant
            i <= rows.len(),
            all == rows_view(rows@),
            task_views(tasks@) == load_spec(all.take(i as int)),
        decreases rows.len() - i,
    {
        let row = &rows[i];
        proof {
            assert(all.take(i + 1).drop_last() =~= all.take(i as int));
            assert(all.take(i + 1).last() == texts(row@));
        }
        if row.len() > 0 && !same_text(row[0].as_str(), "id") {
            assert(texts(row@)[0] == row@[0]@);
            match Task::from_record(row) {
                Some(task) => {
                    let ghost before = task_views(tasks@);
                    tasks.push(task);
                    assert(task_views(tasks@) =~= before.push(task@));
                },
                None => {},
            }
        } else {
            assert(row.len() > 0 ==> texts(row@)[0] == row@[0]@);
        }
        i += 1;
    }
    assert(all.take(rows.len() as int) =~= all);
    TaskManager { tasks }
}

/// The rows to write for a store: the header row, then one record for each
/// task, in the order of the store.
pub fn save_tasks(task_manager: &TaskManager) -> (rows: Vec<Vec<String>>)
    ensures
        rows_view(rows@) == save_spec(task_manager@),
{
    let mut head: Vec<String> = Vec::new();
    head.push(String::from_str("id"));
    head.push(String::from_str("description"));
    head.push(String::from_str("tags"));
    head.push(String::from_str("due"));
    head.push(String::from_str("timestamp"));
    head.push(String::from_str("priority"));
    head.push(String::from_str("status"));
    assert(texts(head@) =~= header());
    let mut rows: Vec<Vec<String>> = Vec::new();
    rows.push(head);
    let mut i: usize = 0;
    while i < task_manager.tasks.len()
        invariant
            i <= task_manager.tasks.len(),
            rows@.len() == i + 1,
            texts(rows@[0]@) == header(),
            forall|k: int| 0 <= k < i ==> texts(#[trigger] rows@[k + 1]@) == record_of(task_manager@[k]),
        decreases task_manager.tasks.len() - i,
    {
        rows.push(task_manager.tasks[i].to_record());
        i += 1;
    }
    proof {
        let want = save_spec(task_manager@);
        let have = rows_view(rows@);
        assert(want.len() == have.len());
        assert forall|k: int| 0 <= k < have.len() implies have[k] == want[k] by {
            if k > 0 {
                assert(texts(rows@[(k - 1) + 1]@) == record_of(task_manager@[k - 1]));
            }
        }
        assert(have =~= want);
    }
    rows
}

/// The tasks that the text of a file holds: those of its rows, and none where
/// the text cannot be read as rows.
pub open spec fn tasks_of_text(text: Seq<char>) -> Seq<TaskView> {
    match csv_rows(text) {
        Some(rows) => load_spec(rows),
        None => Seq::<TaskView>::empty(),
    }
}

/// Builds a store from the text of a file. A text that cannot be read as rows
/// gives an empty store.
pub fn load_text(text: &str) -> (m: TaskManager)
    ensures
        m@ == tasks_of_text(text@),
{
    match csv_read(text) {
        Some(rows) => load_tasks(&rows),
        None => TaskManager::new(),
    }
}

/// The text to write for a store, in full: the header row, then one record
/// for each task.
pub fn save_text(task_manager: &TaskManager) -> (r: Result<String, TaskError>)
    ensures
        r.is_ok() == csv_text(save_spec(task_manager@)).is_some(),
        r.is_ok() ==> csv_text(save_spec(task_manager@)) == Some(r.unwrap()@),
        r.is_err() ==> r.unwrap_err() == TaskError::SaveFailed,
{
    let rows = save_tasks(task_manager);
    match csv_write(&rows) {
        Some(text) => Ok(text),
        None => Err(TaskError::SaveFailed),
    }
}

} // verus!
