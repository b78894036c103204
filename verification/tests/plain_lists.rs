//! The plain todo and done lists kept in a text file.

use chartodo::commands;
use chartodo::done_commands;
use chartodo::errors::ListError;
use chartodo::functionalities;
use chartodo::helpers::{add_positions_to_todo_and_done, create_vecs_from_lines, lists_file_text, text_lines};

fn lines(items: &[&str]) -> Vec<String> {
    items.iter().map(|s| s.to_string()).collect()
}

#[test]
fn reading_the_file_splits_and_caps_the_lists() {
    let kept = "an item of forty characters, more or les";
    let at_limit = "x".repeat(50);
    let too_long = "y".repeat(51);
    let mut file = lines(&["CHARTODO", kept, &at_limit, &too_long, "-----", "DONE"]);
    for i in 0..20 {
        file.insert(4, format!("t{}", i));
    }
    for i in 0..40 {
        file.push(format!("d{}", i));
    }
    let (todo, done) = create_vecs_from_lines(file);
    assert_eq!(todo.len(), 15);
    assert_eq!(&todo[0..3], &lines(&["CHARTODO", kept, &at_limit])[..]);
    assert!(!todo.contains(&too_long));
    assert_eq!(done.len(), 30);
    assert_eq!(done[0], "DONE");
    assert_eq!(done[29], "d28");
}

#[test]
fn every_separator_line_is_dropped() {
    let (todo, done) = create_vecs_from_lines(lines(&["CHARTODO", "-----", "DONE", "-----", "d"]));
    assert_eq!(todo, lines(&["CHARTODO"]));
    assert_eq!(done, lines(&["DONE", "d"]));
}

#[test]
fn written_lists_read_back_the_same() {
    let todo = lines(&["CHARTODO", "one", "two"]);
    let done = lines(&["DONE", "three"]);
    let text = lists_file_text(&todo, &done);
    assert_eq!(text, "CHARTODO\none\ntwo\n-----\nDONE\nthree\n");
    assert_eq!(create_vecs_from_lines(text_lines(&text)), (todo, done));
}

#[test]
fn positions_are_put_in_front_of_the_items() {
    let (t, d) = add_positions_to_todo_and_done(lines(&["CHARTODO", "a", "b"]), lines(&["DONE", "c"]));
    assert_eq!(t, lines(&["CHARTODO", "1: a", "2: b"]));
    assert_eq!(d, lines(&["DONE", "1: c"]));
}

#[test]
fn listing_shows_numbered_lists() {
    let shown = commands::list(lines(&["CHARTODO", "a"]), lines(&["DONE"]));
    assert_eq!(shown, "CHARTODO\n1: a\n-----\nDONE\n");
    assert_eq!(functionalities::list(lines(&["CHARTODO"]), lines(&["DONE", "b"])), "CHARTODO\n-----\nDONE\n1: b\n");
}

#[test]
fn adding_checks_the_item() {
    let mut todo = lines(&["CHARTODO"]);
    assert_eq!(commands::add_todo_item(&mut todo, String::new()), Err(ListError::EmptyItem));
    assert_eq!(commands::add_todo_item(&mut todo, String::from("  ----- ")), Err(ListError::InvalidItem));
    let long = "y".repeat(51);
    assert_eq!(commands::add_todo_item(&mut todo, long.clone()), Err(ListError::ItemTooLong));
    assert_eq!(functionalities::add_todo_item(&mut todo, long.clone()), Ok(()));
    assert_eq!(commands::add_todo_item(&mut todo, format!("  {}  ", "z".repeat(50))), Ok(()));
    assert_eq!(functionalities::add_todo_item(&mut todo, "é".repeat(76)), Err(ListError::ItemTooLong));
    assert_eq!(todo.len(), 3);
    assert_eq!(todo[1], long);
}

#[test]
fn a_position_is_checked_in_order() {
    let mut todo = lines(&["CHARTODO", "a", "b"]);
    let mut done = lines(&["DONE"]);
    assert_eq!(commands::change_todo_item_to_done(&mut todo, &mut done, String::new()), Err(ListError::PositionMissing));
    assert_eq!(commands::change_todo_item_to_done(&mut todo, &mut done, String::from("256")), Err(ListError::PositionNotANumber));
    assert_eq!(commands::change_todo_item_to_done(&mut todo, &mut done, String::from("0")), Err(ListError::PositionZero));
    assert_eq!(commands::change_todo_item_to_done(&mut todo, &mut done, String::from("3")), Err(ListError::PositionTooLarge));
    assert_eq!(commands::remove_done_item(&mut done, String::from("1")), Err(ListError::ListEmpty));
    assert_eq!(todo, lines(&["CHARTODO", "a", "b"]));
}

#[test]
fn single_position_commands_move_and_remove() {
    let mut todo = lines(&["CHARTODO", "a", "b", "c"]);
    let mut done = lines(&["DONE"]);
    assert_eq!(functionalities::change_todo_item_to_done(&mut todo, &mut done, String::from("2")), Ok(String::from("b")));
    assert_eq!(functionalities::remove_todo_item(&mut todo, String::from("+1")), Ok(String::from("a")));
    assert_eq!(todo, lines(&["CHARTODO", "c"]));
    assert_eq!(done, lines(&["DONE", "b"]));
    assert_eq!(commands::item_not_done(&mut todo, &mut done, String::from("1")), Ok(String::from("b")));
    assert_eq!(todo, lines(&["CHARTODO", "c", "b"]));
    assert_eq!(commands::edit_todo_item(&mut todo, String::from("2"), String::new()), Err(ListError::NewItemMissing));
    assert_eq!(commands::edit_todo_item(&mut todo, String::from("2"), "q".repeat(151)), Err(ListError::ItemTooLong));
    assert_eq!(commands::edit_todo_item(&mut todo, String::from("2"), String::from("new")), Ok(String::from("b")));
    assert_eq!(todo, lines(&["CHARTODO", "c", "new"]));
}

#[test]
fn whole_list_commands() {
    let mut todo = lines(&["CHARTODO", "a", "b"]);
    let mut done = lines(&["DONE", "c"]);
    assert_eq!(commands::change_all_todos_to_done(&mut todo, &mut done), Ok(()));
    assert_eq!(done, lines(&["DONE", "c", "a", "b"]));
    assert_eq!(commands::change_all_todos_to_done(&mut todo, &mut done), Err(ListError::ListEmpty));
    assert_eq!(functionalities::clear_todo_list(&mut todo), Err(ListError::ListEmpty));
    assert_eq!(done_commands::reverse_all_done_items_to_todo(&mut todo, &mut done), Ok(()));
    assert_eq!(todo, lines(&["CHARTODO", "c", "a", "b"]));
    assert_eq!(done, lines(&["DONE"]));
    assert_eq!(done_commands::clear_done_list(&mut done), Err(ListError::ListEmpty));
    assert_eq!(commands::clear_both_lists(&mut todo, &mut done), Ok(()));
    assert_eq!(commands::clear_both_lists(&mut todo, &mut done), Err(ListError::ListsEmpty));
    assert_eq!(todo, lines(&["CHARTODO"]));
}

#[test]
fn reversing_every_done_item_is_capped() {
    let mut todo = lines(&["CHARTODO", "1", "2", "3", "4", "5", "6", "7", "8", "9", "10"]);
    let mut done = lines(&["DONE", "a", "b", "c", "d", "e", "f"]);
    assert_eq!(done_commands::reverse_all_done_items_to_todo(&mut todo, &mut done), Err(ListError::TodoFull));
    assert_eq!(done.len(), 7);
}

#[test]
fn several_done_positions_are_read_against_the_todo_length() {
    let todo = lines(&["CHARTODO", "t1", "t2", "t3"]);
    let mut done = lines(&["DONE", "d1", "d2", "d3", "d4"]);
    // 4 is past the todo list, so it is not a position here
    assert_eq!(done_commands::remove_done_item(&todo, &mut done, lines(&["3", "1", "3", "4", "x"])), Ok(()));
    assert_eq!(done, lines(&["DONE", "d2", "d4"]));
    assert_eq!(done_commands::remove_done_item(&todo, &mut done, lines(&["1", "2"])), Err(ListError::TooManyPositions));
}

#[test]
fn several_done_items_go_back_highest_first() {
    let mut todo = lines(&["CHARTODO", "t1", "t2", "t3"]);
    let mut done = lines(&["DONE", "d1", "d2", "d3", "d4"]);
    assert_eq!(done_commands::item_not_done(&mut todo, &mut done, lines(&["1", "3"])), Ok(()));
    assert_eq!(todo, lines(&["CHARTODO", "t1", "t2", "t3", "d3", "d1"]));
    assert_eq!(done, lines(&["DONE", "d2", "d4"]));
    let mut full = lines(&["CHARTODO", "1", "2", "3", "4", "5", "6", "7", "8", "9", "10", "11", "12", "13", "14", "15"]);
    let mut done = lines(&["DONE", "d1", "d2", "d3"]);
    assert_eq!(done_commands::item_not_done(&mut full, &mut done, lines(&["1"])), Err(ListError::TodoFull));
}

#[test]
fn text_is_split_into_lines_as_a_reader_splits_it() {
    assert_eq!(text_lines("a\r\nb\n\nc"), lines(&["a", "b", "", "c"]));
    assert_eq!(text_lines("a\n"), lines(&["a"]));
    assert_eq!(text_lines("x\r"), lines(&["x\r"]));
    assert!(text_lines("").is_empty());
}
