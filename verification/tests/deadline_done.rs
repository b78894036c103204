//! Commands on the deadline done list.

use chartodo::tasks::{Task, Tasks};
use chartodo::deadline::{deadline_tasks_rmdone, deadline_tasks_not_done, deadline_tasks_clear_done, deadline_tasks_notdoneall};

fn tasks_from_json_deadline_done_task(v: &serde_json::Value) -> Task {
    let text = |key: &str| v[key].as_str().map(|s| s.to_string());
    Task {
        task: v["task"].as_str().unwrap().to_string(),
        date: text("date"),
        time: text("time"),
        repeat_number: v["repeat_number"].as_u64().map(|n| n as u32),
        repeat_unit: text("repeat_unit"),
        repeat_done: v["repeat_done"].as_bool(),
        repeat_original_date: text("repeat_original_date"),
        repeat_original_time: text("repeat_original_time"),
    }
}

/// The two lists written as the task files hold them.
fn tasks_from_json_deadline_done(json: &str) -> Tasks {
    let v: serde_json::Value = serde_json::from_str(json).unwrap();
    let list = |key: &str| v[key].as_array().unwrap().iter().map(tasks_from_json_deadline_done_task).collect();
    Tasks { todo: list("todo"), done: list("done") }
}

#[test]
fn deadline_tasks_rmdone_done_is_empty() {
        // write fresh to deadline tasks so content is known
        let fresh_deadline_tasks = r#"
            {
                "todo": [],
                "done": []
            }
        "#;
        let fresh_deadline_tasks: Tasks = tasks_from_json_deadline_done(fresh_deadline_tasks);
        let mut deadline_file: Tasks = fresh_deadline_tasks;

        // perform actions
        let arguments = vec![String::from("don't matter")];
        let error_should_be_true = deadline_tasks_rmdone(&mut deadline_file, arguments).is_err();

        assert!(error_should_be_true);
    }

#[test]
fn deadline_tasks_rmdone_no_valid_args() {
        // write fresh to deadline tasks so content is known
        let fresh_deadline_tasks = r#"
            {
                "todo": [],
                "done": [
                    {
                        "task": "hi",
                        "date": "2025-01-01",
                        "time": "00:00",
                        "repeat_number": null,
                        "repeat_unit": null,
                        "repeat_done": null,
                        "repeat_original_date": null,
                        "repeat_original_time": null
                    }
                ]
            }
        "#;
        let fresh_deadline_tasks: Tasks = tasks_from_json_deadline_done(fresh_deadline_tasks);
        let mut deadline_file: Tasks = fresh_deadline_tasks;

        // check that there are no valid args
        let arguments = vec![String::from("-11"), String::from("0"), String::from("2")];
        let error_should_be_true = deadline_tasks_rmdone(&mut deadline_file, arguments).is_err();

        assert!(error_should_be_true);
    }

#[test]
fn deadline_tasks_rmdone_should_do_deadlinecleardone() {
        // write fresh to deadline tasks so content is known
        let fresh_deadline_tasks = r#"
            {
                "todo": [],
                "done": [
                    {
                        "task": "hi",
                        "date": "2025-01-01",
                        "time": "00:00",
                        "repeat_number": null,
                        "repeat_unit": null,
                        "repeat_done": null,
                        "repeat_original_date": null,
                        "repeat_original_time": null
                    },
                    {
                        "task": "hi",
                        "date": "2025-01-01",
                        "time": "00:00",
                        "repeat_number": null,
                        "repeat_unit": null,
                        "repeat_done": null,
                        "repeat_original_date": null,
                        "repeat_original_time": null
                    },
                    {
                        "task": "hi",
                        "date": "2025-01-01",
                        "time": "00:00",
                        "repeat_number": null,
                        "repeat_unit": null,
                        "repeat_done": null,
                        "repeat_original_date": null,
                        "repeat_original_time": null
                    },
                    {
                        "task": "hi",
                        "date": "2025-01-01",
                        "time": "00:00",
                        "repeat_number": null,
                        "repeat_unit": null,
                        "repeat_done": null,
                        "repeat_original_date": null,
                        "repeat_original_time": null
                    },
                    {
                        "task": "hi",
                        "date": "2025-01-01",
                        "time": "00:00",
                        "repeat_number": null,
                        "repeat_unit": null,
                        "repeat_done": null,
                        "repeat_original_date": null,
                        "repeat_original_time": null
                    },
                    {
                        "task": "hi",
                        "date": "2025-01-01",
                        "time": "00:00",
                        "repeat_number": null,
                        "repeat_unit": null,
                        "repeat_done": null,
                        "repeat_original_date": null,
                        "repeat_original_time": null
                    }
                ]
            }
        "#;
        let fresh_deadline_tasks: Tasks = tasks_from_json_deadline_done(fresh_deadline_tasks);
        let mut deadline_file: Tasks = fresh_deadline_tasks;

        // check that there are no valid args
        let arguments = vec![
            String::from("1"),
            String::from("2"),
            String::from("3"),
            String::from("4"),
            String::from("5"),
            String::from("6"),
            String::from("1"),
        ];
        let error_should_be_true = deadline_tasks_rmdone(&mut deadline_file, arguments).is_err();

        assert!(error_should_be_true);
    }

#[test]
fn deadline_tasks_rmdone_should_do_deadlinecleardone_range() {
        // write fresh to deadline tasks so content is known
        let fresh_deadline_tasks = r#"
            {
                "todo": [],
                "done": [
                    {
                        "task": "hi",
                        "date": "2025-01-01",
                        "time": "00:00",
                        "repeat_number": null,
                        "repeat_unit": null,
                        "repeat_done": null,
                        "repeat_original_date": null,
                        "repeat_original_time": null
                    },
                    {
                        "task": "hi",
                        "date": "2025-01-01",
                        "time": "00:00",
                        "repeat_number": null,
                        "repeat_unit": null,
                        "repeat_done": null,
                        "repeat_original_date": null,
                        "repeat_original_time": null
                    },
                    {
                        "task": "hi",
                        "date": "2025-01-01",
                        "time": "00:00",
                        "repeat_number": null,
                        "repeat_unit": null,
                        "repeat_done": null,
                        "repeat_original_date": null,
                        "repeat_original_time": null
                    },
                    {
                        "task": "hi",
                        "date": "2025-01-01",
                        "time": "00:00",
                        "repeat_number": null,
                        "repeat_unit": null,
                        "repeat_done": null,
                        "repeat_original_date": null,
                        "repeat_original_time": null
                    },
                    {
                        "task": "hi",
                        "date": "2025-01-01",
                        "time": "00:00",
                        "repeat_number": null,
                        "repeat_unit": null,
                        "repeat_done": null,
                        "repeat_original_date": null,
                        "repeat_original_time": null
                    },
                    {
                        "task": "hi",
                        "date": "2025-01-01",
                        "time": "00:00",
                        "repeat_number": null,
                        "repeat_unit": null,
                        "repeat_done": null,
                        "repeat_original_date": null,
                        "repeat_original_time": null
                    }
                ]
            }
        "#;
        let fresh_deadline_tasks: Tasks = tasks_from_json_deadline_done(fresh_deadline_tasks);
        let mut deadline_file: Tasks = fresh_deadline_tasks;

        // check that there are no valid args
        let arguments = vec![String::from("1-6"), String::from("1")];
        let error_should_be_true = deadline_tasks_rmdone(&mut deadline_file, arguments).is_err();

        assert!(error_should_be_true);
    }

#[test]
fn deadline_tasks_rmdone_is_correct() {
        // write fresh to deadline tasks so content is known
        let fresh_deadline_tasks = r#"
            {
                "todo": [],
                "done": [
                    {
                        "task": "hello",
                        "date": "2025-01-01",
                        "time": "00:00",
                        "repeat_number": null,
                        "repeat_unit": null,
                        "repeat_done": null,
                        "repeat_original_date": null,
                        "repeat_original_time": null
                    }
                ]
            }
        "#;
        let fresh_deadline_tasks: Tasks = tasks_from_json_deadline_done(fresh_deadline_tasks);
        let mut deadline_file: Tasks = fresh_deadline_tasks;

        // perform actions
        let arguments = vec![String::from("1")];
        let error_should_be_false = deadline_tasks_rmdone(&mut deadline_file, arguments).is_err();
        let read_test_file = deadline_file.clone();

        // this should be the content of the file
        let deadline_tasks = r#"
            {
                "todo": [],
                "done": []
            }
        "#;
        let deadline_tasks: Tasks = tasks_from_json_deadline_done(deadline_tasks);

        assert!(!error_should_be_false);
        assert_eq!(read_test_file, deadline_tasks);
    }

#[test]
fn deadline_tasks_rmdone_multiple_args_is_correct() {
        // write fresh to deadline tasks so content is known
        let fresh_deadline_tasks = r#"
            {
                "todo": [],
                "done": [
                    {
                        "task": "hi",
                        "date": "2025-01-01",
                        "time": "00:00",
                        "repeat_number": null,
                        "repeat_unit": null,
                        "repeat_done": null,
                        "repeat_original_date": null,
                        "repeat_original_time": null
                    },
                    {
                        "task": "hello",
                        "date": "2025-01-01",
                        "time": "00:00",
                        "repeat_number": null,
                        "repeat_unit": null,
                        "repeat_done": null,
                        "repeat_original_date": null,
                        "repeat_original_time": null
                    },
                    {
                        "task": "welcome",
                        "date": "2025-01-01",
                        "time": "00:00",
                        "repeat_number": null,
                        "repeat_unit": null,
                        "repeat_done": null,
                        "repeat_original_date": null,
                        "repeat_original_time": null
                    }
                ]
            }
        "#;
        let fresh_deadline_tasks: Tasks = tasks_from_json_deadline_done(fresh_deadline_tasks);
        let mut deadline_file: Tasks = fresh_deadline_tasks;

        // perform actions
        let arguments = vec![String::from("1"), String::from("3")];
        let error_should_be_false = deadline_tasks_rmdone(&mut deadline_file, arguments).is_err();
        let read_test_file = deadline_file.clone();

        // this should be the content of the file
        let deadline_tasks = r#"
            {
                "todo": [],
                "done": [
                    {
                        "task": "hello",
                        "date": "2025-01-01",
                        "time": "00:00",
                        "repeat_number": null,
                        "repeat_unit": null,
                        "repeat_done": null,
                        "repeat_original_date": null,
                        "repeat_original_time": null
                    }
                ]
            }
        "#;
        let deadline_tasks: Tasks = tasks_from_json_deadline_done(deadline_tasks);

        assert!(!error_should_be_false);
        assert_eq!(read_test_file, deadline_tasks);
    }

#[test]
fn deadline_tasks_rmdone_multiple_args_is_correct_range() {
        // write fresh to deadline tasks so content is known
        let fresh_deadline_tasks = r#"
            {
                "todo": [],
                "done": [
                    {
                        "task": "hi",
                        "date": "2025-01-01",
                        "time": "00:00",
                        "repeat_number": null,
                        "repeat_unit": null,
                        "repeat_done": null,
                        "repeat_original_date": null,
                        "repeat_original_time": null
                    },
                    {
                        "task": "hello",
                        "date": "2025-01-01",
                        "time": "00:00",
                        "repeat_number": null,
                        "repeat_unit": null,
                        "repeat_done": null,
                        "repeat_original_date": null,
                        "repeat_original_time": null
                    },
                    {
                        "task": "welcome",
                        "date": "2025-01-01",
                        "time": "00:00",
                        "repeat_number": null,
                        "repeat_unit": null,
                        "repeat_done": null,
                        "repeat_original_date": null,
                        "repeat_original_time": null
                    }
                ]
            }
        "#;
        let fresh_deadline_tasks: Tasks = tasks_from_json_deadline_done(fresh_deadline_tasks);
        let mut deadline_file: Tasks = fresh_deadline_tasks;

        // perform actions
        let arguments = vec![String::from("2-3")];
        let error_should_be_false = deadline_tasks_rmdone(&mut deadline_file, arguments).is_err();
        let read_test_file = deadline_file.clone();

        // this should be the content of the file
        let deadline_tasks = r#"
            {
                "todo": [],
                "done": [
                    {
                        "task": "hi",
                        "date": "2025-01-01",
                        "time": "00:00",
                        "repeat_number": null,
                        "repeat_unit": null,
                        "repeat_done": null,
                        "repeat_original_date": null,
                        "repeat_original_time": null
                    }
                ]
            }
        "#;
        let deadline_tasks: Tasks = tasks_from_json_deadline_done(deadline_tasks);

        assert!(!error_should_be_false);
        assert_eq!(read_test_file, deadline_tasks);
    }

#[test]
fn deadline_tasks_notdone_done_is_empty() {
        // write fresh to deadline tasks so content is known
        let fresh_deadline_tasks = r#"
            {
                "todo": [],
                "done": []
            }
        "#;
        let fresh_deadline_tasks: Tasks = tasks_from_json_deadline_done(fresh_deadline_tasks);
        let mut deadline_file: Tasks = fresh_deadline_tasks;

        // perform actions
        let arguments = vec![String::from("don't matter")];
        let error_should_be_true = deadline_tasks_not_done(&mut deadline_file, arguments).is_err();

        assert!(error_should_be_true);
    }

#[test]
fn deadline_tasks_notdone_no_valid_args() {
        // write fresh to deadline tasks so content is known
        let fresh_deadline_tasks = r#"
            {
                "todo": [],
                "done": [
                    {
                        "task": "hi",
                        "date": "2025-01-01",
                        "time": "00:00",
                        "repeat_number": null,
                        "repeat_unit": null,
                        "repeat_done": null,
                        "repeat_original_date": null,
                        "repeat_original_time": null
                    }
                ]
            }
        "#;
        let fresh_deadline_tasks: Tasks = tasks_from_json_deadline_done(fresh_deadline_tasks);
        let mut deadline_file: Tasks = fresh_deadline_tasks;

        // check that there are no valid args
        let arguments = vec![String::from("-11"), String::from("0"), String::from("2")];
        let error_should_be_true = deadline_tasks_not_done(&mut deadline_file, arguments).is_err();

        assert!(error_should_be_true);
    }

#[test]
fn deadline_tasks_notdone_should_do_deadlinenotdoneall() {
        // write fresh to deadline tasks so content is known
        let fresh_deadline_tasks = r#"
            {
                "todo": [],
                "done": [
                    {
                        "task": "hi",
                        "date": "2025-01-01",
                        "time": "00:00",
                        "repeat_number": null,
                        "repeat_unit": null,
                        "repeat_done": null,
                        "repeat_original_date": null,
                        "repeat_original_time": null
                    },
                    {
                        "task": "hi",
                        "date": "2025-01-01",
                        "time": "00:00",
                        "repeat_number": null,
                        "repeat_unit": null,
                        "repeat_done": null,
                        "repeat_original_date": null,
                        "repeat_original_time": null
                    },
                    {
                        "task": "hi",
                        "date": "2025-01-01",
                        "time": "00:00",
                        "repeat_number": null,
                        "repeat_unit": null,
                        "repeat_done": null,
                        "repeat_original_date": null,
                        "repeat_original_time": null
                    },
                    {
                        "task": "hi",
                        "date": "2025-01-01",
                        "time": "00:00",
                        "repeat_number": null,
                        "repeat_unit": null,
                        "repeat_done": null,
                        "repeat_original_date": null,
                        "repeat_original_time": null
                    },
                    {
                        "task": "hi",
                        "date": "2025-01-01",
                        "time": "00:00",
                        "repeat_number": null,
                        "repeat_unit": null,
                        "repeat_done": null,
                        "repeat_original_date": null,
                        "repeat_original_time": null
                    },
                    {
                        "task": "hi",
                        "date": "2025-01-01",
                        "time": "00:00",
                        "repeat_number": null,
                        "repeat_unit": null,
                        "repeat_done": null,
                        "repeat_original_date": null,
                        "repeat_original_time": null
                    }
                ]
            }
        "#;
        let fresh_deadline_tasks: Tasks = tasks_from_json_deadline_done(fresh_deadline_tasks);
        let mut deadline_file: Tasks = fresh_deadline_tasks;

        // check that there are no valid args
        let arguments = vec![
            String::from("1"),
            String::from("2"),
            String::from("3"),
            String::from("4"),
            String::from("5"),
            String::from("6"),
            String::from("1"),
        ];
        let error_should_be_true = deadline_tasks_not_done(&mut deadline_file, arguments).is_err();

        assert!(error_should_be_true);
    }

#[test]
fn deadline_tasks_notdone_should_do_deadlinenotdoneall_range() {
        // write fresh to deadline tasks so content is known
        let fresh_deadline_tasks = r#"
            {
                "todo": [],
                "done": [
                    {
                        "task": "hi",
                        "date": "2025-01-01",
                        "time": "00:00",
                        "repeat_number": null,
                        "repeat_unit": null,
                        "repeat_done": null,
                        "repeat_original_date": null,
                        "repeat_original_time": null
                    },
                    {
                        "task": "hi",
                        "date": "2025-01-01",
                        "time": "00:00",
                        "repeat_number": null,
                        "repeat_unit": null,
                        "repeat_done": null,
                        "repeat_original_date": null,
                        "repeat_original_time": null
                    },
                    {
                        "task": "hi",
                        "date": "2025-01-01",
                        "time": "00:00",
                        "repeat_number": null,
                        "repeat_unit": null,
                        "repeat_done": null,
                        "repeat_original_date": null,
                        "repeat_original_time": null
                    },
                    {
                        "task": "hi",
                        "date": "2025-01-01",
                        "time": "00:00",
                        "repeat_number": null,
                        "repeat_unit": null,
                        "repeat_done": null,
                        "repeat_original_date": null,
                        "repeat_original_time": null
                    },
                    {
                        "task": "hi",
                        "date": "2025-01-01",
                        "time": "00:00",
                        "repeat_number": null,
                        "repeat_unit": null,
                        "repeat_done": null,
                        "repeat_original_date": null,
                        "repeat_original_time": null
                    },
                    {
                        "task": "hi",
                        "date": "2025-01-01",
                        "time": "00:00",
                        "repeat_number": null,
                        "repeat_unit": null,
                        "repeat_done": null,
                        "repeat_original_date": null,
                        "repeat_original_time": null
                    }
                ]
            }
        "#;
        let fresh_deadline_tasks: Tasks = tasks_from_json_deadline_done(fresh_deadline_tasks);
        let mut deadline_file: Tasks = fresh_deadline_tasks;

        // check that there are no valid args
        let arguments = vec![String::from("1-6"), String::from("1")];
        let error_should_be_true = deadline_tasks_not_done(&mut deadline_file, arguments).is_err();

        assert!(error_should_be_true);
    }

#[test]
fn deadline_tasks_notdone_is_correct() {
        // write fresh to deadline tasks so content is known
        let fresh_deadline_tasks = r#"
            {
                "todo": [],
                "done": [
                    {
                        "task": "hello",
                        "date": "2025-01-01",
                        "time": "00:00",
                        "repeat_number": null,
                        "repeat_unit": null,
                        "repeat_done": null,
                        "repeat_original_date": null,
                        "repeat_original_time": null
                    }
                ]
            }
        "#;
        let fresh_deadline_tasks: Tasks = tasks_from_json_deadline_done(fresh_deadline_tasks);
        let mut deadline_file: Tasks = fresh_deadline_tasks;

        // perform actions
        let arguments = vec![String::from("1")];
        let error_should_be_false = deadline_tasks_not_done(&mut deadline_file, arguments).is_err();
        let read_test_file = deadline_file.clone();

        // this should be the content of the file
        let deadline_tasks = r#"
            {
                "todo": [
                    {
                        "task": "hello",
                        "date": "2025-01-01",
                        "time": "00:00",
                        "repeat_number": null,
                        "repeat_unit": null,
                        "repeat_done": null,
                        "repeat_original_date": null,
                        "repeat_original_time": null
                    }
                ],
                "done": []
            }
        "#;
        let deadline_tasks: Tasks = tasks_from_json_deadline_done(deadline_tasks);

        assert!(!error_should_be_false);
        assert_eq!(read_test_file, deadline_tasks);
    }

#[test]
fn deadline_tasks_notdone_multiple_args_is_correct() {
        // write fresh to deadline tasks so content is known
        let fresh_deadline_tasks = r#"
            {
                "todo": [],
                "done": [
                    {
                        "task": "hi",
                        "date": "2025-01-01",
                        "time": "00:00",
                        "repeat_number": null,
                        "repeat_unit": null,
                        "repeat_done": null,
                        "repeat_original_date": null,
                        "repeat_original_time": null
                    },
                    {
                        "task": "hello",
                        "date": "2025-01-01",
                        "time": "00:00",
                        "repeat_number": null,
                        "repeat_unit": null,
                        "repeat_done": null,
                        "repeat_original_date": null,
                        "repeat_original_time": null
                    },
                    {
                        "task": "welcome",
                        "date": "2025-01-01",
                        "time": "00:00",
                        "repeat_number": null,
                        "repeat_unit": null,
                        "repeat_done": null,
                        "repeat_original_date": null,
                        "repeat_original_time": null
                    }
                ]
            }
        "#;
        let fresh_deadline_tasks: Tasks = tasks_from_json_deadline_done(fresh_deadline_tasks);
        let mut deadline_file: Tasks = fresh_deadline_tasks;

        // perform actions
        let arguments = vec![String::from("1"), String::from("3")];
        let error_should_be_false = deadline_tasks_not_done(&mut deadline_file, arguments).is_err();
        let read_test_file = deadline_file.clone();

        // this should be the content of the file
        let deadline_tasks = r#"
            {
                "todo": [
                    {
                        "task": "welcome",
                        "date": "2025-01-01",
                        "time": "00:00",
                        "repeat_number": null,
                        "repeat_unit": null,
                        "repeat_done": null,
                        "repeat_original_date": null,
                        "repeat_original_time": null
                    },
                    {
                        "task": "hi",
                        "date": "2025-01-01",
                        "time": "00:00",
                        "repeat_number": null,
                        "repeat_unit": null,
                        "repeat_done": null,
                        "repeat_original_date": null,
                        "repeat_original_time": null
                    }
                ],
                "done": [
                    {
                        "task": "hello",
                        "date": "2025-01-01",
                        "time": "00:00",
                        "repeat_number": null,
                        "repeat_unit": null,
                        "repeat_done": null,
                        "repeat_original_date": null,
                        "repeat_original_time": null
                    }
                ]
            }
        "#;
        let deadline_tasks: Tasks = tasks_from_json_deadline_done(deadline_tasks);

        assert!(!error_should_be_false);
        assert_eq!(read_test_file, deadline_tasks);
    }

#[test]
fn deadline_tasks_notdone_multiple_args_is_correct_range() {
        // write fresh to deadline tasks so content is known
        let fresh_deadline_tasks = r#"
            {
                "todo": [],
                "done": [
                    {
                        "task": "hi",
                        "date": "2025-01-01",
                        "time": "00:00",
                        "repeat_number": null,
                        "repeat_unit": null,
                        "repeat_done": null,
                        "repeat_original_date": null,
                        "repeat_original_time": null
                    },
                    {
                        "task": "hello",
                        "date": "2025-01-01",
                        "time": "00:00",
                        "repeat_number": null,
                        "repeat_unit": null,
                        "repeat_done": null,
                        "repeat_original_date": null,
                        "repeat_original_time": null
                    },
                    {
                        "task": "welcome",
                        "date": "2025-01-01",
                        "time": "00:00",
                        "repeat_number": null,
                        "repeat_unit": null,
                        "repeat_done": null,
                        "repeat_original_date": null,
                        "repeat_original_time": null
                    }
                ]
            }
        "#;
        let fresh_deadline_tasks: Tasks = tasks_from_json_deadline_done(fresh_deadline_tasks);
        let mut deadline_file: Tasks = fresh_deadline_tasks;

        // perform actions
        let arguments = vec![String::from("2-3")];
        let error_should_be_false = deadline_tasks_not_done(&mut deadline_file, arguments).is_err();
        let read_test_file = deadline_file.clone();

        // this should be the content of the file
        let deadline_tasks = r#"
            {
                "todo": [
                    {
                        "task": "welcome",
                        "date": "2025-01-01",
                        "time": "00:00",
                        "repeat_number": null,
                        "repeat_unit": null,
                        "repeat_done": null,
                        "repeat_original_date": null,
                        "repeat_original_time": null
                    },
                    {
                        "task": "hello",
                        "date": "2025-01-01",
                        "time": "00:00",
                        "repeat_number": null,
                        "repeat_unit": null,
                        "repeat_done": null,
                        "repeat_original_date": null,
                        "repeat_original_time": null
                    }
                ],
                "done": [
                    {
                        "task": "hi",
                        "date": "2025-01-01",
                        "time": "00:00",
                        "repeat_number": null,
                        "repeat_unit": null,
                        "repeat_done": null,
                        "repeat_original_date": null,
                        "repeat_original_time": null
                    }
                ]
            }
        "#;
        let deadline_tasks: Tasks = tasks_from_json_deadline_done(deadline_tasks);

        assert!(!error_should_be_false);
        assert_eq!(read_test_file, deadline_tasks);
    }

#[test]
fn deadline_tasks_cleardone_done_is_empty() {
        // write fresh to deadline tasks so content is known
        let fresh_deadline_tasks = r#"
            {
                "todo": [],
                "done": []
            }
        "#;
        let fresh_deadline_tasks: Tasks = tasks_from_json_deadline_done(fresh_deadline_tasks);
        let mut deadline_file: Tasks = fresh_deadline_tasks;

        // perform actions
        let error_should_be_true = deadline_tasks_clear_done(&mut deadline_file).is_err();

        assert!(error_should_be_true);
    }

#[test]
fn deadline_tasks_cleardone_is_correct() {
        // write fresh to deadline tasks so content is known
        let fresh_deadline_tasks = r#"
            {
                "todo": [],
                "done": [
                    {
                        "task": "hello",
                        "date": "2025-01-01",
                        "time": "00:00",
                        "repeat_number": null,
                        "repeat_unit": null,
                        "repeat_done": null,
                        "repeat_original_date": null,
                        "repeat_original_time": null
                    }
                ]
            }
        "#;
        let fresh_deadline_tasks: Tasks = tasks_from_json_deadline_done(fresh_deadline_tasks);
        let mut deadline_file: Tasks = fresh_deadline_tasks;

        // perform actions
        let error_should_be_false = deadline_tasks_clear_done(&mut deadline_file).is_err();
        let read_test_file = deadline_file.clone();

        // this should be the content of the file
        let deadline_tasks = r#"
            {
                "todo": [],
                "done": []
            }
        "#;
        let deadline_tasks: Tasks = tasks_from_json_deadline_done(deadline_tasks);

        assert!(!error_should_be_false);
        assert_eq!(read_test_file, deadline_tasks);
    }

#[test]
fn deadline_tasks_notdoneall_done_is_empty() {
        // write fresh to deadline tasks so content is known
        let fresh_deadline_tasks = r#"
            {
                "todo": [],
                "done": []
            }
        "#;
        let fresh_deadline_tasks: Tasks = tasks_from_json_deadline_done(fresh_deadline_tasks);
        let mut deadline_file: Tasks = fresh_deadline_tasks;

        // perform actions
        let error_should_be_true = deadline_tasks_notdoneall(&mut deadline_file).is_err();

        assert!(error_should_be_true);
    }

#[test]
fn deadline_tasks_notdoneall_is_correct() {
        // write fresh to deadline tasks so content is known
        let fresh_deadline_tasks = r#"
            {
                "todo": [],
                "done": [
                    {
                        "task": "hi",
                        "date": "2025-01-01",
                        "time": "00:00",
                        "repeat_number": null,
                        "repeat_unit": null,
                        "repeat_done": null,
                        "repeat_original_date": null,
                        "repeat_original_time": null
                    },
                    {
                        "task": "hello",
                        "date": "2025-01-01",
                        "time": "00:00",
                        "repeat_number": null,
                        "repeat_unit": null,
                        "repeat_done": null,
                        "repeat_original_date": null,
                        "repeat_original_time": null
                    },
                    {
                        "task": "welcome",
                        "date": "2025-01-01",
                        "time": "00:00",
                        "repeat_number": null,
                        "repeat_unit": null,
                        "repeat_done": null,
                        "repeat_original_date": null,
                        "repeat_original_time": null
                    }
                ]
            }
        "#;
        let fresh_deadline_tasks: Tasks = tasks_from_json_deadline_done(fresh_deadline_tasks);
        let mut deadline_file: Tasks = fresh_deadline_tasks;

        // perform actions
        let error_should_be_false = deadline_tasks_notdoneall(&mut deadline_file).is_err();
        let read_test_file = deadline_file.clone();

        // this should be the content of the file
        let deadline_tasks = r#"
            {
                "todo": [
                    {
                        "task": "hi",
                        "date": "2025-01-01",
                        "time": "00:00",
                        "repeat_number": null,
                        "repeat_unit": null,
                        "repeat_done": null,
                        "repeat_original_date": null,
                        "repeat_original_time": null
                    },
                    {
                        "task": "hello",
                        "date": "2025-01-01",
                        "time": "00:00",
                        "repeat_number": null,
                        "repeat_unit": null,
                        "repeat_done": null,
                        "repeat_original_date": null,
                        "repeat_original_time": null
                    },
                    {
                        "task": "welcome",
                        "date": "2025-01-01",
                        "time": "00:00",
                        "repeat_number": null,
                        "repeat_unit": null,
                        "repeat_done": null,
                        "repeat_original_date": null,
                        "repeat_original_time": null
                    }
                ],
                "done": []
            }
        "#;
        let deadline_tasks: Tasks = tasks_from_json_deadline_done(deadline_tasks);

        assert!(!error_should_be_false);
        assert_eq!(read_test_file, deadline_tasks);
    }

