use todoer::date::CalendarDate;
use todoer::filter::ViewFilters;
use todoer::task::{Priority, Status, Task};
use todoer::task_manager::TaskManager;
use todoer::view::{color_string, format_due, format_task, not_after, print_tasks, render_lines, sort_tasks};

fn strings(items: &[&str]) -> Vec<String> {
    items.iter().map(|s| s.to_string()).collect()
}

fn date(text: &str) -> CalendarDate {
    CalendarDate::parse(text).unwrap()
}

fn task(id: u32, tags: &[&str], due: &str, priority: Priority, status: Status) -> Task {
    Task {
        id,
        description: format!("task {}", id),
        tags: strings(tags),
        due: date(due),
        timestamp: 0,
        priority,
        status,
    }
}

fn ids(tasks: &Vec<Task>) -> Vec<u32> {
    tasks.iter().map(|t| t.id).collect()
}

#[test]
fn sort_by_due_then_tag() {
    let tasks = vec![
        task(1, &["x"], "2024-01-02", Priority::High, Status::Todo),
        task(2, &["z"], "2024-01-01", Priority::Low, Status::Todo),
        task(3, &["a"], "2024-01-01", Priority::Low, Status::Todo),
    ];
    assert_eq!(ids(&sort_tasks(&tasks)), vec![3, 2, 1]);
}

#[test]
fn sort_by_priority_last() {
    let tasks = vec![
        task(1, &["a"], "2024-01-01", Priority::High, Status::Todo),
        task(2, &["a"], "2024-01-01", Priority::Low, Status::Todo),
        task(3, &["a"], "2024-01-01", Priority::Medium, Status::Todo),
        task(4, &["b"], "2024-01-01", Priority::Low, Status::Todo),
        task(5, &["a"], "2023-12-31", Priority::High, Status::Todo),
    ];
    assert_eq!(ids(&sort_tasks(&tasks)), vec![5, 2, 3, 1, 4]);
}

#[test]
fn sort_keeps_equal_tasks_in_their_order() {
    let tasks = vec![
        task(4, &["a"], "2024-01-01", Priority::Low, Status::Todo),
        task(2, &["a", "q"], "2024-01-01", Priority::Low, Status::Done),
        task(9, &["a"], "2024-01-01", Priority::Low, Status::Hold),
        task(1, &["a"], "2024-01-01", Priority::Low, Status::Todo),
    ];
    assert_eq!(ids(&sort_tasks(&tasks)), vec![4, 2, 9, 1]);
}

#[test]
fn sort_puts_untagged_tasks_first() {
    let tasks = vec![
        task(1, &["a"], "2024-01-01", Priority::Low, Status::Todo),
        task(2, &[], "2024-01-01", Priority::High, Status::Todo),
        task(3, &[""], "2024-01-01", Priority::Low, Status::Todo),
    ];
    assert_eq!(ids(&sort_tasks(&tasks)), vec![3, 2, 1]);
}

#[test]
fn sort_agrees_with_a_stable_sort_by_the_composite_key() {
    let tasks = vec![
        task(1, &["m"], "2024-01-05", Priority::Medium, Status::Todo),
        task(2, &["b"], "2024-01-03", Priority::High, Status::Todo),
        task(3, &["b"], "2024-01-03", Priority::Low, Status::Todo),
        task(4, &["a"], "2024-01-05", Priority::Low, Status::Todo),
        task(5, &["m"], "2024-01-05", Priority::Medium, Status::Done),
        task(6, &["B"], "2024-01-03", Priority::High, Status::Todo),
        task(7, &["a"], "2024-01-01", Priority::High, Status::Todo),
    ];
    let mut want: Vec<&Task> = tasks.iter().collect();
    want.sort_by(|a, b| {
        a.due
            .days()
            .cmp(&b.due.days())
            .then_with(|| a.tags[0].cmp(&b.tags[0]))
            .then_with(|| a.priority.cmp(&b.priority))
    });
    let want_ids: Vec<u32> = want.iter().map(|t| t.id).collect();
    assert_eq!(ids(&sort_tasks(&tasks)), want_ids);
    assert_eq!(want_ids, vec![7, 6, 3, 2, 4, 1, 5]);
}

#[test]
fn sort_of_nothing_is_nothing() {
    assert!(sort_tasks(&Vec::new()).is_empty());
}

#[test]
fn not_after_compares_the_composite_key() {
    let a = task(1, &["a"], "2024-01-01", Priority::Low, Status::Todo);
    let b = task(2, &["a"], "2024-01-01", Priority::High, Status::Todo);
    let c = task(3, &["b"], "2024-01-01", Priority::Low, Status::Todo);
    let d = task(4, &["a"], "2024-01-02", Priority::Low, Status::Todo);
    assert!(not_after(&a, &a));
    assert!(not_after(&a, &b) && !not_after(&b, &a));
    assert!(not_after(&b, &c) && !not_after(&c, &b));
    assert!(not_after(&c, &d) && !not_after(&d, &c));
}

#[test]
fn color_string_wraps_in_escape_sequences() {
    assert_eq!(color_string("Hello World", "red"), "\x1b[31mHello World\x1b[0m");
    assert_eq!(color_string("x", "green"), "\x1b[32mx\x1b[0m");
    assert_eq!(color_string("x", "yellow"), "\x1b[33mx\x1b[0m");
    assert_eq!(color_string("x", "blue"), "\x1b[34mx\x1b[0m");
    assert_eq!(color_string("x", "magenta"), "\x1b[35mx\x1b[0m");
    assert_eq!(color_string("x", "cyan"), "\x1b[36mx\x1b[0m");
    assert_eq!(color_string("x", "white"), "\x1b[37mx\x1b[0m");
    assert_eq!(color_string("x", "orange"), "\x1b[38;5;208mx\x1b[0m");
    assert_eq!(color_string("x", "pink"), "\x1b[0mx\x1b[0m");
}

#[test]
fn format_task_shows_status_id_priority_and_description() {
    assert_eq!(
        format_task(&task(7, &["a"], "2024-01-01", Priority::High, Status::Done)),
        "[x][#7 - \x1b[31mHigh\x1b[0m] task 7"
    );
    assert_eq!(
        format_task(&task(12, &[], "2024-01-01", Priority::Low, Status::Todo)),
        "[ ][#12 - \x1b[34mLow\x1b[0m] task 12"
    );
    assert_eq!(
        format_task(&task(3, &[], "2024-01-01", Priority::Medium, Status::Blocked)),
        "[!][#3 - \x1b[38;5;208mMedium\x1b[0m] task 3"
    );
    assert_eq!(
        format_task(&task(4, &[], "2024-01-01", Priority::Low, Status::Hold)),
        "[~][#4 - \x1b[34mLow\x1b[0m] task 4"
    );
}

#[test]
fn format_due_shows_the_date_and_its_weekday() {
    assert_eq!(format_due(date("2024-01-03")), "\nDue: 2024-01-03 (Wednesday)");
    assert_eq!(format_due(date("2024-01-01")), "\nDue: 2024-01-01 (Monday)");
}

#[test]
fn render_groups_by_due_date_and_tag() {
    let tasks = vec![
        task(3, &["a"], "2024-01-01", Priority::Low, Status::Todo),
        task(2, &["z"], "2024-01-01", Priority::Low, Status::Done),
        task(5, &["z"], "2024-01-01", Priority::High, Status::Todo),
        task(1, &["x"], "2024-01-02", Priority::High, Status::Hold),
    ];
    assert_eq!(
        render_lines(&tasks),
        strings(&[
            "\nDue: 2024-01-01 (Monday)",
            "--------------------------------",
            "# a",
            "[ ][#3 - \x1b[34mLow\x1b[0m] task 3",
            "# z",
            "[x][#2 - \x1b[34mLow\x1b[0m] task 2",
            "[ ][#5 - \x1b[31mHigh\x1b[0m] task 5",
            "\nDue: 2024-01-02 (Tuesday)",
            "--------------------------------",
            "# x",
            "[~][#1 - \x1b[31mHigh\x1b[0m] task 1",
        ])
    );
}

#[test]
fn render_keeps_the_tag_heading_across_dates_and_untagged_tasks() {
    let tasks = vec![
        task(1, &["a"], "2024-01-01", Priority::Low, Status::Todo),
        task(2, &[], "2024-01-01", Priority::Low, Status::Todo),
        task(3, &["a"], "2024-01-02", Priority::Low, Status::Todo),
        task(4, &["b"], "2024-01-02", Priority::Low, Status::Todo),
    ];
    assert_eq!(
        render_lines(&tasks),
        strings(&[
            "\nDue: 2024-01-01 (Monday)",
            "--------------------------------",
            "# a",
            "[ ][#1 - \x1b[34mLow\x1b[0m] task 1",
            "[ ][#2 - \x1b[34mLow\x1b[0m] task 2",
            "\nDue: 2024-01-02 (Tuesday)",
            "--------------------------------",
            "[ ][#3 - \x1b[34mLow\x1b[0m] task 3",
            "# b",
            "[ ][#4 - \x1b[34mLow\x1b[0m] task 4",
        ])
    );
}

#[test]
fn render_of_nothing_is_nothing() {
    assert!(render_lines(&Vec::new()).is_empty());
}

#[test]
fn print_tasks_sorts_before_it_renders() {
    let tasks = vec![
        task(1, &["x"], "2024-01-02", Priority::High, Status::Todo),
        task(2, &["z"], "2024-01-01", Priority::Low, Status::Todo),
        task(3, &["a"], "2024-01-01", Priority::Low, Status::Todo),
    ];
    assert_eq!(
        print_tasks(&tasks),
        strings(&[
            "\nDue: 2024-01-01 (Monday)",
            "--------------------------------",
            "# a",
            "[ ][#3 - \x1b[34mLow\x1b[0m] task 3",
            "# z",
            "[ ][#2 - \x1b[34mLow\x1b[0m] task 2",
            "\nDue: 2024-01-02 (Tuesday)",
            "--------------------------------",
            "# x",
            "[ ][#1 - \x1b[31mHigh\x1b[0m] task 1",
        ])
    );
}

#[test]
fn list_tasks_filters_sorts_and_renders() {
    let m = TaskManager {
        tasks: vec![
            task(1, &["x"], "2024-01-02", Priority::High, Status::Done),
            task(2, &["z"], "2024-01-01", Priority::Low, Status::Todo),
            task(3, &["a"], "2024-01-01", Priority::Low, Status::Done),
        ],
    };
    let mut f = ViewFilters::new();
    f.status = Some(strings(&["done"]));
    assert_eq!(
        m.list_tasks(&f, date("2024-01-03")),
        strings(&[
            "\nDue: 2024-01-01 (Monday)",
            "--------------------------------",
            "# a",
            "[x][#3 - \x1b[34mLow\x1b[0m] task 3",
            "\nDue: 2024-01-02 (Tuesday)",
            "--------------------------------",
            "# x",
            "[x][#1 - \x1b[31mHigh\x1b[0m] task 1",
        ])
    );
    assert_eq!(m.list_tasks(&ViewFilters::new(), date("2024-01-03")).len(), 10);
}
