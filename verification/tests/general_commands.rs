//! Clearing the lists of every kind of task.

use chartodo::tasks::{Task, Tasks};
use chartodo::general::{clear_all_lists, clear_regular_tasks, clear_deadline_tasks, clear_repeating_tasks};

fn tasks_from_json_general_commands_task(v: &serde_json::Value) -> Task {
    let text = |key: &str| v[key].as_str().map(|s| s.to_string());
    Task {
        task: v["task"].as_str().unwrap().to_string(),
        date: text("date"),
        time: text("time"),
        repeat_number: v["repeat_number"].as_u64().map(|n| n as u32),
        repeat_unit: text("repeat_unit"),
        repeat_done: v["repeat_done"].as_bool(),
        repeat_original_date: text("repeat_original_date"),
        repeat_original_time: text("repeat_original_time"),
    }
}

/// The two lists written as the task files hold them.
fn tasks_from_json_general_commands(json: &str) -> Tasks {
    let v: serde_json::Value = serde_json::from_str(json).unwrap();
    let list = |key: &str| v[key].as_array().unwrap().iter().map(tasks_from_json_general_commands_task).collect();
    Tasks { todo: list("todo"), done: list("done") }
}

#[test]
fn clearall_all_lists_are_empty() {
        // write fresh to regular tasks so content is known
        let fresh_regular_tasks = r#"
            {
                "todo": [],
                "done": []
            }
        "#;
        let fresh_regular_tasks: Tasks = tasks_from_json_general_commands(fresh_regular_tasks);
        let mut regular_file: Tasks = fresh_regular_tasks;
        // write fresh to deadline tasks so content is known
        let fresh_deadline_tasks = r#"
            {
                "todo": [],
                "done": []
            }
        "#;
        let fresh_deadline_tasks: Tasks = tasks_from_json_general_commands(fresh_deadline_tasks);
        let mut deadline_file: Tasks = fresh_deadline_tasks;
        // write fresh to repeating tasks so content is known
        let fresh_repeating_tasks = r#"
            {
                "todo": [],
                "done": []
            }
        "#;
        let fresh_repeating_tasks: Tasks = tasks_from_json_general_commands(fresh_repeating_tasks);
        let mut repeating_file: Tasks = fresh_repeating_tasks;

        let error_should_be_true = clear_all_lists(&mut regular_file, &mut deadline_file, &mut repeating_file).is_err();
        assert!(error_should_be_true);
    }

#[test]
fn clearall_is_correct() {
        // write fresh to regular tasks so content is known
        let fresh_regular_tasks = r#"
            {
                "todo": [
                    {
                        "task": "this is the todo list",
                        "date": null,
                        "time": null,
                        "repeat_number": null,
                        "repeat_unit": null,
                        "repeat_done": null,
                        "repeat_original_date": null,
                        "repeat_original_time": null
                    }
                ],
                "done": [
                    {
                        "task": "this is the done list",
                        "date": null,
                        "time": null,
                        "repeat_number": null,
                        "repeat_unit": null,
                        "repeat_done": null,
                        "repeat_original_date": null,
                        "repeat_original_time": null
                    }
                ]
            }
        "#;
        let fresh_regular_tasks: Tasks = tasks_from_json_general_commands(fresh_regular_tasks);
        let mut regular_file: Tasks = fresh_regular_tasks;
        // write fresh to deadline tasks so content is known
        let fresh_deadline_tasks = r#"
            {
                "todo": [
                    {
                        "task": "hi",
                        "date": "2025-01-01",
                        "time": "00:00",
                        "repeat_number": null,
                        "repeat_unit": null,
                        "repeat_done": null,
                        "repeat_original_date": null,
                        "repeat_original_time": null
                    }
                ],
                "done": [
                    {
                        "task": "hello",
                        "date": "2025-01-01",
                        "time": "00:00",
                        "repeat_number": null,
                        "repeat_unit": null,
                        "repeat_done": null,
                        "repeat_original_date": null,
                        "repeat_original_time": null
                    }
                ]
            }
        "#;
        let fresh_deadline_tasks: Tasks = tasks_from_json_general_commands(fresh_deadline_tasks);
        let mut deadline_file: Tasks = fresh_deadline_tasks;
        // write fresh to repeating tasks so content is known
        let fresh_repeating_tasks = r#"
            {
                "todo": [
                    {
                        "task": "hi",
                        "date": "2021-01-01",
                        "time": "00:00",
                        "repeat_number": 3,
                        "repeat_unit": "minutes",
                        "repeat_done": false,
                        "repeat_original_date": "2020-12-31",
                        "repeat_original_time": "23:57"
                    }
                ],
                "done": [
                    {
                        "task": "this-is-the-todo-list",
                        "date": "2021-01-01",
                        "time": "00:00",
                        "repeat_number": 3,
                        "repeat_unit": "minutes",
                        "repeat_done": true,
                        "repeat_original_date": "2020-12-31",
                        "repeat_original_time": "23:57"
                    }
                ]
            }
        "#;
        let fresh_repeating_tasks: Tasks = tasks_from_json_general_commands(fresh_repeating_tasks);
        let mut repeating_file: Tasks = fresh_repeating_tasks;

        // this should be the content of the files
        // write fresh to regular tasks so content is known
        let regular_tasks = r#"
            {
                "todo": [],
                "done": []
            }
        "#;
        let regular_tasks: Tasks = tasks_from_json_general_commands(regular_tasks);
        // write fresh to deadline tasks so content is known
        let deadline_tasks = r#"
            {
                "todo": [],
                "done": []
            }
        "#;
        let deadline_tasks: Tasks = tasks_from_json_general_commands(deadline_tasks);
        // write fresh to repeating tasks so content is known
        let repeating_tasks = r#"
            {
                "todo": [],
                "done": []
            }
        "#;
        let repeating_tasks: Tasks = tasks_from_json_general_commands(repeating_tasks);

        let error_should_be_false = clear_all_lists(&mut regular_file, &mut deadline_file, &mut repeating_file).is_err();
        assert!(!error_should_be_false);

        let read_regular_tasks = regular_file.clone();
        let read_deadline_tasks = deadline_file.clone();
        let read_repeating_tasks = repeating_file.clone();
        assert_eq!(read_regular_tasks, regular_tasks);
        assert_eq!(read_deadline_tasks, deadline_tasks);
        assert_eq!(read_repeating_tasks, repeating_tasks);
    }

#[test]
fn clearregular_lists_are_empty() {
        // write fresh to regular tasks so content is known
        let fresh_regular_tasks = r#"
            {
                "todo": [],
                "done": []
            }
        "#;
        let fresh_regular_tasks: Tasks = tasks_from_json_general_commands(fresh_regular_tasks);
        let mut regular_file: Tasks = fresh_regular_tasks;

        let error_should_be_true = clear_regular_tasks(&mut regular_file).is_err();
        assert!(error_should_be_true);
    }

#[test]
fn clearregular_is_correct() {
        // write fresh to regular tasks so content is known
        let fresh_regular_tasks = r#"
            {
                "todo": [
                    {
                        "task": "this is the todo list",
                        "date": null,
                        "time": null,
                        "repeat_number": null,
                        "repeat_unit": null,
                        "repeat_done": null,
                        "repeat_original_date": null,
                        "repeat_original_time": null
                    }
                ],
                "done": [
                    {
                        "task": "this is the done list",
                        "date": null,
                        "time": null,
                        "repeat_number": null,
                        "repeat_unit": null,
                        "repeat_done": null,
                        "repeat_original_date": null,
                        "repeat_original_time": null
                    }
                ]
            }
        "#;
        let fresh_regular_tasks: Tasks = tasks_from_json_general_commands(fresh_regular_tasks);
        let mut regular_file: Tasks = fresh_regular_tasks;

        // this should be the content of the file
        let regular_tasks = r#"
            {
                "todo": [],
                "done": []
            }
        "#;
        let regular_tasks: Tasks = tasks_from_json_general_commands(regular_tasks);

        let error_should_be_false = clear_regular_tasks(&mut regular_file).is_err();
        assert!(!error_should_be_false);

        let read_regular_tasks = regular_file.clone();
        assert_eq!(read_regular_tasks, regular_tasks);
    }

#[test]
fn cleardeadline_lists_are_empty() {
        // write fresh to deadline tasks so content is known
        let fresh_deadline_tasks = r#"
            {
                "todo": [],
                "done": []
            }
        "#;
        let fresh_deadline_tasks: Tasks = tasks_from_json_general_commands(fresh_deadline_tasks);
        let mut deadline_file: Tasks = fresh_deadline_tasks;

        let error_should_be_true = clear_deadline_tasks(&mut deadline_file).is_err();
        assert!(error_should_be_true);
    }

#[test]
fn cleardeadline_is_correct() {
        // write fresh to deadline tasks so content is known
        let fresh_deadline_tasks = r#"
            {
                "todo": [
                    {
                        "task": "hi",
                        "date": "2025-01-01",
                        "time": "00:00",
                        "repeat_number": null,
                        "repeat_unit": null,
                        "repeat_done": null,
                        "repeat_original_date": null,
                        "repeat_original_time": null
                    }
                ],
                "done": [
                    {
                        "task": "hello",
                        "date": "2025-01-01",
                        "time": "00:00",
                        "repeat_number": null,
                        "repeat_unit": null,
                        "repeat_done": null,
                        "repeat_original_date": null,
                        "repeat_original_time": null
                    }
                ]
            }
        "#;
        let fresh_deadline_tasks: Tasks = tasks_from_json_general_commands(fresh_deadline_tasks);
        let mut deadline_file: Tasks = fresh_deadline_tasks;

        let error_should_be_false = clear_deadline_tasks(&mut deadline_file).is_err();
        assert!(!error_should_be_false);

        // this should be the content of the file
        let deadline_tasks = r#"
            {
                "todo": [],
                "done": []
            }
        "#;
        let deadline_tasks: Tasks = tasks_from_json_general_commands(deadline_tasks);

        let read_deadline_tasks = deadline_file.clone();
        assert_eq!(read_deadline_tasks, deadline_tasks);
    }

#[test]
fn clearrepeating_lists_are_empty() {
        // write fresh to repeating tasks so content is known
        let fresh_repeating_tasks = r#"
            {
                "todo": [],
                "done": []
            }
        "#;
        let fresh_repeating_tasks: Tasks = tasks_from_json_general_commands(fresh_repeating_tasks);
        let mut repeating_file: Tasks = fresh_repeating_tasks;

        let error_should_be_true = clear_repeating_tasks(&mut repeating_file).is_err();
        assert!(error_should_be_true);
    }

#[test]
fn clearrepeating_is_correct() {
        // write fresh to repeating tasks so content is known
        let fresh_repeating_tasks = r#"
            {
                "todo": [
                    {
                        "task": "hi",
                        "date": "2021-01-01",
                        "time": "00:00",
                        "repeat_number": 3,
                        "repeat_unit": "minutes",
                        "repeat_done": false,
                        "repeat_original_date": "2020-12-31",
                        "repeat_original_time": "23:57"
                    }
                ],
                "done": [
                    {
                        "task": "this-is-the-todo-list",
                        "date": "2021-01-01",
                        "time": "00:00",
                        "repeat_number": 3,
                        "repeat_unit": "minutes",
                        "repeat_done": true,
                        "repeat_original_date": "2020-12-31",
                        "repeat_original_time": "23:57"
                    }
                ]
            }
        "#;
        let fresh_repeating_tasks: Tasks = tasks_from_json_general_commands(fresh_repeating_tasks);
        let mut repeating_file: Tasks = fresh_repeating_tasks;

        let error_should_be_false = clear_repeating_tasks(&mut repeating_file).is_err();
        assert!(!error_should_be_false);

        // this should be the content of the file
        let repeating_tasks = r#"
            {
                "todo": [],
                "done": []
            }
        "#;
        let repeating_tasks: Tasks = tasks_from_json_general_commands(repeating_tasks);

        let read_repeating_tasks = repeating_file.clone();
        assert_eq!(read_repeating_tasks, repeating_tasks);
    }

