# chartodo

A command-line todo list with three kinds of task — regular tasks, tasks with
a deadline, and tasks that repeat on an interval — each kept as a todo list
and a done list in a JSON file, plus the plain text list of the first
versions.

## Layout

- `src/` — the library, written in Verus and verified. Every command is a
  function from the lists and the command's arguments to the new lists or the
  reason it is refused; the texts that show the lists are computed here too.
  - `tasks`, `errors` — the task lists and the reasons a command is refused.
  - `text`, `filtering`, `positions`, `list_ops`, `text_sort` — text order,
    reading positions and ranges out of arguments, and moving or removing
    the tasks at those positions.
  - `regular`, `deadline`, `general` — the commands on each kind of task.
  - `listing`, `repeating` — the texts that list the tasks; listing the
    repeating tasks renews those that have come due again.
  - `datetime` — what the library takes from `chrono` (date and time
    validity, adding an interval, the local clock), stated as contracts.
  - `helpers`, `commands`, `functionalities`, `done_commands` — the plain
    text list, and `chartodo plain [command]` in the program.
  - `laws` — properties that hold across commands.
- `app/` — the program: arguments, the task files, and the table it prints.
- `tests/` — tests of the library.
