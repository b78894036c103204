//! A todo-list library: regular tasks, tasks with a deadline and repeating
//! tasks, each kept as a "todo" list and a "done" list, together with the
//! rules by which commands change those lists and the text that lists them.
//!
//! The plain text list of the first versions (`helpers`, `commands`,
//! `functionalities`, `done_commands`) is kept as well: a todo list and a
//! done list, each headed by its title line, in one text file.
//!
//! Everything that decides or computes lives here and is verified; reading
//! and writing the task files and printing happen in the program around it.

pub mod text;
pub mod tasks;
pub mod filtering;
pub mod positions;
pub mod errors;
pub mod list_ops;
pub mod text_sort;
pub mod regular;
pub mod datetime;
pub mod deadline;
pub mod listing;
pub mod repeating;
pub mod general;
pub mod helpers;
pub mod commands;
pub mod functionalities;
pub mod done_commands;
pub mod laws;
