//! Listing repeating tasks, which renews those that came due again.

use chartodo::errors::TaskError;
use chartodo::repeating::{renew_task, repeating_tasks_list_at, sort_tasks_by_due};
use chartodo::tasks::{Task, Tasks};

fn repeating(task: &str, date: &str, time: &str, n: u32, unit: &str, done: bool) -> Task {
    Task {
        task: task.to_string(),
        date: Some(date.to_string()),
        time: Some(time.to_string()),
        repeat_number: Some(n),
        repeat_unit: Some(unit.to_string()),
        repeat_done: Some(done),
        repeat_original_date: Some(String::from("2000-01-01")),
        repeat_original_time: Some(String::from("00:00")),
    }
}

fn renew(date: &str, time: &str, n: u32, unit: &str) -> Result<(String, String), TaskError> {
    let mut lists = Tasks { todo: vec![], done: vec![repeating("r", date, time, n, unit, true)] };
    repeating_tasks_list_at(&mut lists, &String::from("2999-01-01"), &String::from("00:00:00"))?;
    assert!(lists.done.is_empty());
    let t = &lists.todo[0];
    assert_eq!(t.repeat_done, Some(false));
    assert_eq!(t.repeat_original_date, Some(date.to_string()));
    assert_eq!(t.repeat_original_time, Some(time.to_string()));
    Ok((t.date.clone().unwrap(), t.time.clone().unwrap()))
}

#[test]
fn a_task_due_again_moves_one_interval_on() {
    assert_eq!(renew("2020-01-01", "23:00", 90, "minutes"), Ok((String::from("2020-01-02"), String::from("00:30"))));
    assert_eq!(renew("2020-01-01", "23:00", 2, "hour"), Ok((String::from("2020-01-02"), String::from("01:00"))));
    assert_eq!(renew("2020-02-28", "08:15", 2, "days"), Ok((String::from("2020-03-01"), String::from("08:15"))));
    assert_eq!(renew("2020-01-01", "08:15", 2, "weeks"), Ok((String::from("2020-01-15"), String::from("08:15"))));
    assert_eq!(renew("2020-01-31", "10:00", 1, "month"), Ok((String::from("2020-02-29"), String::from("10:00"))));
    assert_eq!(renew("2020-02-29", "10:00", 1, "years"), Ok((String::from("2021-02-28"), String::from("10:00"))));
    assert_eq!(renew("2020-02-29", "10:00", 3, "fortnights"), Ok((String::from("2020-02-29"), String::from("10:00"))));
    assert_eq!(renew("2025-1-5", "9:05", 3, "fortnights"), Ok((String::from("2025-01-05"), String::from("09:05"))));
    assert_eq!(renew("2025-1-5", "9:05", 1, "day"), Ok((String::from("2025-01-06"), String::from("09:05"))));
}

#[test]
fn a_renewal_that_cannot_be_computed_is_an_error() {
    assert_eq!(renew("2020-13-01", "10:00", 1, "days"), Err(TaskError::DateTimeUnreadable));
    assert_eq!(renew("2020-01-01", "10:00", 4_000_000_000, "days"), Err(TaskError::DateTimeOutOfRange));
    assert_eq!(renew("2020-01-01", "10:00", 400_000_000, "years"), Err(TaskError::DateTimeOutOfRange));
}

#[test]
fn listing_renews_sorts_and_reports_a_change() {
    let mut lists = Tasks {
        todo: vec![repeating("later", "2030-05-05", "10:00", 1, "days", false)],
        done: vec![
            repeating("kept", "2029-01-01", "09:00", 1, "days", true),
            repeating("due", "2024-06-01", "07:30", 1, "days", true),
            repeating("same day, earlier", "2024-06-10", "11:59", 1, "hours", true),
            repeating("same day, later", "2024-06-10", "12:01", 1, "hours", true),
        ],
    };
    let (todo, done, changed) =
        repeating_tasks_list_at(&mut lists, &String::from("2024-06-10"), &String::from("12:00:00")).unwrap();
    assert!(changed);
    let names: Vec<&str> = lists.todo.iter().map(|t| t.task.as_str()).collect();
    assert_eq!(names, vec!["due", "same day, earlier", "later"]);
    assert_eq!(lists.done.len(), 2);
    assert!(lists.done.iter().all(|t| t.repeat_done == Some(true)));
    assert_eq!(
        todo,
        "1: due\n   interval: 1 days\n   MISSED: 2024-06-02 07:30\n2: same day, earlier\n   interval: 1 hours\n   due: 2024-06-10 12:59\n3: later\n   interval: 1 days\n   due: 2030-05-05 10:00"
    );
    assert_eq!(
        done,
        "DONE\n---\n1: same day, later\n   interval: 1 hours\n   done: 2024-06-10 12:01\n2: kept\n   interval: 1 days\n   done: 2029-01-01 09:00"
    );
}

#[test]
fn listing_without_a_renewal_changes_nothing() {
    let before = Tasks {
        todo: vec![
            repeating("b", "2030-05-05", "10:00", 1, "days", false),
            repeating("a", "2020-05-05", "10:00", 1, "days", false),
        ],
        done: vec![],
    };
    let mut lists = before.clone();
    let (todo, done, changed) =
        repeating_tasks_list_at(&mut lists, &String::from("2024-06-10"), &String::from("12:00:00")).unwrap();
    assert!(!changed);
    assert_eq!(lists, before);
    assert_eq!(done, "");
    assert!(todo.starts_with("1: b\n"));
}

#[test]
fn sorting_by_due_keeps_ties_in_order() {
    let sorted = sort_tasks_by_due(vec![
        repeating("x", "2024-01-02", "00:00", 1, "days", false),
        repeating("y", "2024-01-01", "10:00", 1, "days", false),
        repeating("z", "2024-01-02", "00:00", 2, "days", false),
        repeating("w", "2024-01-01", "09:00", 1, "days", false),
    ]);
    let names: Vec<&str> = sorted.iter().map(|t| t.task.as_str()).collect();
    assert_eq!(names, vec!["w", "y", "x", "z"]);
}

#[test]
fn a_renewed_task_keeps_its_text_and_interval() {
    let done = repeating("gym", "2024-03-01", "07:00", 2, "days", true);
    let renewed = renew_task(&done, String::from("2024-03-03"), String::from("07:00"));
    assert_eq!(
        renewed,
        Task {
            task: String::from("gym"),
            date: Some(String::from("2024-03-03")),
            time: Some(String::from("07:00")),
            repeat_number: Some(2),
            repeat_unit: Some(String::from("days")),
            repeat_done: Some(false),
            repeat_original_date: Some(String::from("2024-03-01")),
            repeat_original_time: Some(String::from("07:00")),
        }
    );
}
