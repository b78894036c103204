//! The plain todo and done lists, as kept in a text file: the todo list's
//! title line and items, a separator line, then the done list's title line
//! and items. Splitting the file's lines into the two lists, numbering the
//! items, and writing the lists back as text.

use vstd::prelude::*;
use vstd::string::*;
use crate::filtering::views;
use crate::text::{decimal_chars, push_char, push_decimal, str_equal};

verus! {

/// The most items the todo list keeps when read.
pub const MAX_TODO_LINES: usize = 15;

/// The most items the done list keeps when read.
pub const MAX_DONE_LINES: usize = 30;

/// The most characters a line may have to be kept when read.
pub const MAX_LINE_CHARS: usize = 50;

/// The line that separates the todo list from the done list.
pub open spec fn separator() -> Seq<char> {
    "-----"@
}

/// A line read from the file is kept when its list, which may hold `cap`
/// lines, has room, and the line has at most 50 characters.
pub open spec fn line_fits(list: Seq<String>, line: String, cap: nat) -> bool {
    list.len() < cap && line@.len() <= 50
}

/// The todo list, the done list, and whether a separator has been seen, after
/// reading `lines` in order: every separator line switches to the done list
/// and is dropped; any other line joins the current list if it fits.
pub open spec fn separated_lists(lines: Seq<String>) -> (Seq<String>, Seq<String>, bool)
    decreases lines.len(),
{
    if lines.len() == 0 {
        (Seq::empty(), Seq::empty(), false)
    } else {
        let (todo, done, past) = separated_lists(lines.drop_last());
        let line = lines.last();
        if line@ == separator() {
            (todo, done, true)
        } else if !past {
            if line_fits(todo, line, 15) {
                (todo.push(line), done, past)
            } else {
                (todo, done, past)
            }
        } else {
            if line_fits(done, line, 30) {
                (todo, done.push(line), past)
            } else {
                (todo, done, past)
            }
        }
    }
}

/// Splits the lines of the list file into the todo list and the done list.
pub fn create_vecs_from_lines(lines: Vec<String>) -> (r: (Vec<String>, Vec<String>))
    ensures
        r.0@ == separated_lists(lines@).0,
        r.1@ == separated_lists(lines@).1,
{
    let mut todo_buf: Vec<String> = Vec::new();
    let mut done_buf: Vec<String> = Vec::new();
    let mut past = false;
    let mut i: usize = 0;
    assert(lines@.take(0) =~= Seq::<String>::empty());
    while i < lines.len()
        invariant
            i <= lines@.len(),
            (todo_buf@, done_buf@, past) == separated_lists(lines@.take(i as int)),
        decreases lines@.len() - i,
    {
        let line = &lines[i];
        assert(lines@.take(i + 1).drop_last() =~= lines@.take(i as int));
        assert(lines@.take(i + 1).last() == *line);
        if str_equal(line.as_str(), "-----") {
            past = true;
        } else if !past {
            if todo_buf.len() < MAX_TODO_LINES && line.unicode_len() <= MAX_LINE_CHARS {
                todo_buf.push(line.clone());
            }
        } else {
            if done_buf.len() < MAX_DONE_LINES && line.unicode_len() <= MAX_LINE_CHARS {
                done_buf.push(line.clone());
            }
        }
        i = i + 1;
    }
    assert(lines@.take(i as int) =~= lines@);
    (todo_buf, done_buf)
}

/// The `i`th line of a list as shown: the title line as it is, every item
/// after it with its position in front (`3: text`).
pub open spec fn numbered_line(buf: Seq<String>, i: int) -> Seq<char> {
    if i == 0 {
        buf[0]@
    } else {
        decimal_chars(i as nat) + ": "@ + buf[i]@
    }
}

/// `shown` is `buf` with every item numbered.
pub open spec fn numbered(shown: Seq<String>, buf: Seq<String>) -> bool {
    &&& shown.len() == buf.len()
    &&& forall|i: int| 0 <= i < buf.len() ==> (#[trigger] shown[i])@ == numbered_line(buf, i)
}

/// `buf` with every item after the title line numbered from 1.
fn number_items(buf: Vec<String>) -> (r: Vec<String>)
    requires
        buf@.len() <= i32::MAX,
    ensures
        numbered(r@, buf@),
{
    let mut out: Vec<String> = Vec::new();
    let mut i: usize = 0;
    while i < buf.len()
        invariant
            i <= buf@.len(),
            out@.len() == i,
            forall|j: int| 0 <= j < i ==> (#[trigger] out@[j])@ == numbered_line(buf@, j),
        decreases buf@.len() - i,
    {
        if i == 0 {
            out.push(buf[0].clone());
        } else {
            let mut line = String::new();
            push_decimal(&mut line, i);
            line.append(": ");
            line.append(buf[i].as_str());
            assert(line@ =~= numbered_line(buf@, i as int));
            out.push(line);
        }
        i = i + 1;
    }
    out
}

/// Puts each item's position in front of it, in both lists, leaving the
/// title lines as they are.
pub fn add_positions_to_todo_and_done(todo_buf: Vec<String>, done_buf: Vec<String>) -> (r: (
    Vec<String>,
    Vec<String>,
))
    requires
        todo_buf@.len() <= i32::MAX,
        done_buf@.len() <= i32::MAX,
    ensures
        numbered(r.0@, todo_buf@),
        numbered(r.1@, done_buf@),
{
    (number_items(todo_buf), number_items(done_buf))
}

/// The items of a list: its lines after the title line.
pub open spec fn items_of(buf: Seq<String>) -> Seq<String> {
    if buf.len() == 0 {
        buf
    } else {
        buf.drop_first()
    }
}

/// The lines of `s`, each ended by a newline.
pub open spec fn lines_text(s: Seq<String>) -> Seq<char>
    decreases s.len(),
{
    if s.len() == 0 {
        Seq::empty()
    } else {
        lines_text(s.drop_last()) + s.last()@ + "\n"@
    }
}

/// The two lists as text: the todo lines, the separator, the done lines.
pub open spec fn lists_text(todo: Seq<String>, done: Seq<String>) -> Seq<char> {
    lines_text(todo) + separator() + "\n"@ + lines_text(done)
}

/// Appends the lines of `s`, each ended by a newline.
fn push_lines(out: &mut String, s: &Vec<String>)
    ensures
        final(out)@ == old(out)@ + lines_text(s@),
{
    let ghost start = out@;
    let mut i: usize = 0;
    assert(s@.take(0) =~= Seq::<String>::empty());
    assert(out@ =~= start + lines_text(s@.take(0)));
    while i < s.len()
        invariant
            i <= s@.len(),
            out@ == start + lines_text(s@.take(i as int)),
        decreases s@.len() - i,
    {
        out.append(s[i].as_str());
        out.append("\n");
        assert(s@.take(i + 1).drop_last() =~= s@.take(i as int));
        i = i + 1;
        assert(out@ =~= start + lines_text(s@.take(i as int)));
    }
    assert(s@.take(i as int) =~= s@);
}

/// The two lists as the list file holds them, and as they are shown.
pub fn lists_file_text(todo_buf: &Vec<String>, done_buf: &Vec<String>) -> (r: String)
    ensures
        r@ == lists_text(todo_buf@, done_buf@),
{
    let mut out = String::new();
    push_lines(&mut out, todo_buf);
    out.append("-----\n");
    push_lines(&mut out, done_buf);
    proof {
        reveal_strlit("-----\n");
        reveal_strlit("-----");
        reveal_strlit("\n");
    }
    assert(out@ =~= lists_text(todo_buf@, done_buf@));
    out
}

/// `line` without the carriage return that ended it, if any.
pub open spec fn strip_cr(line: Seq<char>) -> Seq<char> {
    if line.len() > 0 && line.last() == '\r' {
        line.drop_last()
    } else {
        line
    }
}

/// Reading `s` from its start: the lines ended so far (each without its
/// newline or carriage return), and the line begun after the last newline.
pub open spec fn scan_lines(s: Seq<char>) -> (Seq<Seq<char>>, Seq<char>)
    decreases s.len(),
{
    if s.len() == 0 {
        (Seq::empty(), Seq::empty())
    } else {
        let (ended, current) = scan_lines(s.drop_last());
        if s.last() == '\n' {
            (ended.push(strip_cr(current)), Seq::empty())
        } else {
            (ended, current.push(s.last()))
        }
    }
}

/// The lines of the text `s`, as a buffered reader gives them: split at each
/// newline, a carriage return before a newline dropped, and a last line
/// counted only when it is not empty.
pub open spec fn lines_of(s: Seq<char>) -> Seq<Seq<char>> {
    let (ended, current) = scan_lines(s);
    if current.len() == 0 {
        ended
    } else {
        ended.push(current)
    }
}

/// Splits the text of the list file into its lines.
pub fn text_lines(text: &str) -> (r: Vec<String>)
    ensures
        views(r@) == lines_of(text@),
{
    let n = text.unicode_len();
    let mut ended: Vec<String> = Vec::new();
    let mut current = String::new();
    let mut i: usize = 0;
    assert(text@.take(0) =~= Seq::<char>::empty());
    assert(views(ended@) =~= Seq::<Seq<char>>::empty());
    while i < n
        invariant
            i <= n,
            n == text@.len(),
            (views(ended@), current@) == scan_lines(text@.take(i as int)),
        decreases n - i,
    {
        let c = text.get_char(i);
        assert(text@.take(i + 1).drop_last() =~= text@.take(i as int));
        assert(text@.take(i + 1).last() == c);
        if c == '\n' {
            let cn = current.unicode_len();
            let line = if cn > 0 && current.get_char(cn - 1) == '\r' {
                let part = current.as_str().substring_char(0, cn - 1);
                assert(part@ =~= current@.drop_last());
                String::from_str(part)
            } else {
                current.clone()
            };
            let ghost before = views(ended@);
            ended.push(line);
            assert(views(ended@) =~= before.push(strip_cr(current@)));
            current = String::new();
        } else {
            push_char(&mut current, c);
        }
        i = i + 1;
    }
    assert(text@.take(n as int) =~= text@);
    if current.unicode_len() > 0 {
        let ghost before = views(ended@);
        ended.push(current);
        assert(views(ended@) =~= before.push(current@));
    }
    ended
}

} // verus!
