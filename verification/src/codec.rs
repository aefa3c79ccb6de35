//! The task/text codec: the one-directional derivation from the editable
//! Todo buffer to structured task records, the inverse rendering used when
//! the wizard appends a new task, and the in-place completion toggle.
//!
//! The text buffer is authoritative; tasks are a derived projection,
//! regenerated whenever the buffer is marked dirty.

use vstd::prelude::*;
use vstd::string::StrSliceExecFns;
use vstd::string::StringExecFns;
use crate::text::{
    contains_char, contains_char_str, find_char, find_char_str, is_space, lemma_find_char,
    lemma_find_char_at, lemma_join_split_lines, lemma_split_lines_concat, lemma_split_lines_len,
    lemma_split_lines_single,
    lemma_trim_back_at, lemma_trim_front_at, lemma_trim_no_edge_space, spec_join_lines,
    spec_split_lines, spec_trim, trim_str,
};
use crate::types::{Task, TaskModel};

verus! {

/// Whether the task-header pattern `- [` occurs at position `i` of a line.
pub open spec fn starts_task_at(line: Seq<char>, i: int) -> bool {
    &&& 0 <= i
    &&& i + 3 <= line.len()
    &&& line[i] == '-'
    &&& line[i + 1] == ' '
    &&& line[i + 2] == '['
}

/// The first position where the task-header pattern occurs, if any.
pub open spec fn find_task_start(line: Seq<char>) -> Option<int>
    decreases line.len(),
{
    if line.len() < 3 {
        None
    } else if starts_task_at(line, 0) {
        Some(0)
    } else {
        match find_task_start(line.subrange(1, line.len() as int)) {
            Some(i) => Some(i + 1),
            None => None,
        }
    }
}

pub proof fn lemma_find_task_start(line: Seq<char>)
    ensures
        match find_task_start(line) {
            Some(i) => starts_task_at(line, i) && forall|k: int|
                0 <= k < i ==> !starts_task_at(line, k),
            None => forall|k: int| !starts_task_at(line, k),
        },
    decreases line.len(),
{
    if line.len() < 3 {
    } else if starts_task_at(line, 0) {
    } else {
        let l1 = line.subrange(1, line.len() as int);
        lemma_find_task_start(l1);
        assert(forall|k: int| starts_task_at(line, k) && k >= 1 ==> starts_task_at(l1, k - 1));
        assert(forall|k: int| 0 <= k && starts_task_at(l1, k) ==> starts_task_at(line, k + 1));
    }
}

pub proof fn lemma_find_task_start_at(line: Seq<char>, i: int)
    requires
        starts_task_at(line, i),
        forall|k: int| 0 <= k < i ==> !starts_task_at(line, k),
    ensures
        find_task_start(line) == Some(i),
{
    lemma_find_task_start(line);
}

/// Whether a marker means "completed": it contains the letter x in either
/// case.
pub open spec fn marker_completed(s: Seq<char>) -> bool {
    contains_char(s, 'x') || contains_char(s, 'X')
}

/// Parse one trimmed line as a task header `- [<marker>] <title>`.
/// A line without the pattern, or without a closing bracket after it, is
/// not a header.
pub open spec fn line_header(line: Seq<char>) -> Option<TaskModel> {
    match find_task_start(line) {
        None => None,
        Some(i) => {
            let rest = line.subrange(i + 3, line.len() as int);
            match find_char(rest, ']') {
                None => None,
                Some(j) => {
                    let inside = rest.subrange(0, j);
                    let title = spec_trim(rest.subrange(j + 1, rest.len() as int));
                    let completed = marker_completed(inside);
                    let time = if !completed && spec_trim(inside).len() > 0 {
                        spec_trim(inside)
                    } else {
                        Seq::empty()
                    };
                    Some(TaskModel { title, description: Seq::empty(), time, completed })
                },
            }
        },
    }
}

/// Append one trimmed description line to an accumulating task,
/// newline-joined.
pub open spec fn append_desc(t: TaskModel, line: Seq<char>) -> TaskModel {
    TaskModel {
        description: if t.description.len() == 0 {
            line
        } else {
            t.description + seq!['\n'] + line
        },
        ..t
    }
}

/// Flush the task being accumulated, if any, onto the finished list.
pub open spec fn flush_task(acc: Seq<TaskModel>, cur: Option<TaskModel>) -> Seq<TaskModel> {
    match cur {
        None => acc,
        Some(t) => acc.push(t),
    }
}

/// The parse fold over the buffer's lines: a header line flushes the
/// current task and starts a new one; any other non-empty line extends the
/// current task's description; lines before the first header are dropped.
pub open spec fn parse_lines(
    lines: Seq<Seq<char>>,
    acc: Seq<TaskModel>,
    cur: Option<TaskModel>,
) -> Seq<TaskModel>
    decreases lines.len(),
{
    if lines.len() == 0 {
        flush_task(acc, cur)
    } else {
        let line = spec_trim(lines[0]);
        let rest = lines.subrange(1, lines.len() as int);
        if line.len() == 0 {
            parse_lines(rest, acc, cur)
        } else {
            match line_header(line) {
                Some(t) => parse_lines(rest, flush_task(acc, cur), Some(t)),
                None => match cur {
                    None => parse_lines(rest, acc, None),
                    Some(c) => parse_lines(rest, acc, Some(append_desc(c, line))),
                },
            }
        }
    }
}

/// The model of `parse_tasks_from_text`: the ordered task list derived
/// from a text buffer.
pub open spec fn spec_parse_tasks(text: Seq<char>) -> Seq<TaskModel> {
    parse_lines(spec_split_lines(text), Seq::empty(), None)
}

spec fn cur_model(cur: &Option<Task>) -> Option<TaskModel> {
    match cur {
        None => None,
        Some(t) => Some(t.view()),
    }
}

/// The exec counterpart of `find_task_start`.
fn find_task_start_str(line: &str) -> (r: Option<usize>)
    ensures
        match r {
            Some(i) => find_task_start(line@) == Some(i as int),
            None => find_task_start(line@) is None,
        },
{
    let len: usize = line.unicode_len();
    if len < 3 {
        proof {
            lemma_find_task_start(line@);
            if find_task_start(line@) is Some {
                assert(starts_task_at(line@, find_task_start(line@)->Some_0));
            }
        }
        return None;
    }
    let mut i: usize = 0;
    while i < len - 2
        invariant
            0 <= i,
            3 <= len,
            i + 2 <= len,
            len == line@.len(),
            forall|k: int| 0 <= k < i ==> !starts_task_at(line@, k),
        decreases len - i,
    {
        if line.get_char(i) == '-' && line.get_char(i + 1) == ' ' && line.get_char(i + 2) == '[' {
            proof {
                lemma_find_task_start_at(line@, i as int);
            }
            return Some(i);
        }
        assert(!starts_task_at(line@, i as int));
        i = i + 1;
    }
    proof {
        assert(forall|k: int| k + 3 > len ==> !starts_task_at(line@, k));
        lemma_find_task_start(line@);
        if find_task_start(line@) is Some {
            assert(starts_task_at(line@, find_task_start(line@)->Some_0));
        }
    }
    None
}

/// Parse one trimmed line as a task header, the exec counterpart of
/// `line_header`.
fn parse_header(line: &str) -> (r: Option<Task>)
    ensures
        match r {
            Some(task) => line_header(line@) == Some(task@),
            None => line_header(line@) is None,
        },
{
    let len: usize = line.unicode_len();
    let start = match find_task_start_str(line) {
        None => {
            return None;
        },
        Some(i) => i,
    };
    proof {
        lemma_find_task_start(line@);
    }
    let rest = line.substring_char(start + 3, len);
    proof {
        lemma_find_char(rest@, ']');
    }
    let close = match find_char_str(rest, ']') {
        None => {
            return None;
        },
        Some(j) => j,
    };
    let rest_len: usize = rest.unicode_len();
    let inside = rest.substring_char(0, close);
    let title_raw = rest.substring_char(close + 1, rest_len);
    let title = trim_str(title_raw);
    let completed = contains_char_str(inside, 'x') || contains_char_str(inside, 'X');
    let inside_trim = trim_str(inside);
    let time: String = if !completed && inside_trim.unicode_len() > 0 {
        inside_trim.to_owned()
    } else {
        String::new()
    };
    Some(Task { title: title.to_owned(), description: String::new(), time, completed })
}

/// Derive the ordered task list from the Todo buffer's text, scanning
/// line by line.
pub fn parse_tasks_from_text(content: &str) -> (tasks: Vec<Task>)
    ensures
        tasks.deep_view() == spec_parse_tasks(content@),
{
    let total: usize = content.unicode_len();
    let mut tasks: Vec<Task> = Vec::new();
    let mut cur: Option<Task> = None;
    let mut pos: usize = 0;
    proof {
        assert(content@.subrange(0, total as int) =~= content@);
        assert(tasks.deep_view() =~= Seq::<TaskModel>::empty());
    }
    loop
        invariant_except_break
            pos <= total,
            total == content@.len(),
            parse_lines(
                spec_split_lines(content@.subrange(pos as int, total as int)),
                tasks.deep_view(),
                cur_model(&cur),
            ) == spec_parse_tasks(content@),
        ensures
            flush_task(tasks.deep_view(), cur_model(&cur)) == spec_parse_tasks(content@),
        decreases total - pos,
    {
        let tail = content.substring_char(pos, total);
        let ghost remaining = content@.subrange(pos as int, total as int);
        let ghost lines_now = spec_split_lines(remaining);
        let ghost acc0 = tasks.deep_view();
        let ghost cur0 = cur_model(&cur);
        proof {
            lemma_find_char(tail@, '\n');
        }
        let (line, next_pos, last) = match find_char_str(tail, '\n') {
            Some(k) => {
                proof {
                    assert(tail@.subrange(0, k as int) + seq!['\n'] + tail@.subrange(
                        k as int + 1,
                        tail@.len() as int,
                    ) =~= remaining);
                    lemma_split_lines_concat(
                        tail@.subrange(0, k as int),
                        tail@.subrange(k as int + 1, tail@.len() as int),
                    );
                }
                (tail.substring_char(0, k), pos + k + 1, false)
            },
            None => {
                proof {
                    lemma_split_lines_single(remaining);
                }
                (tail, total, true)
            },
        };
        let ghost lines_rest = spec_split_lines(content@.subrange(next_pos as int, total as int));
        proof {
            if last {
                assert(lines_now =~= seq![line@]);
                assert(lines_now.subrange(1, lines_now.len() as int) =~= Seq::<Seq<char>>::empty());
            } else {
                assert(content@.subrange(next_pos as int, total as int) =~= tail@.subrange(
                    line@.len() as int + 1,
                    tail@.len() as int,
                ));
                assert(lines_now =~= seq![line@] + lines_rest);
                assert(lines_now.subrange(1, lines_now.len() as int) =~= lines_rest);
            }
            assert(lines_now.len() > 0 && lines_now[0] == line@);
        }
        let t = trim_str(line);
        if t.unicode_len() == 0 {
        } else {
            match parse_header(t) {
                Some(new_task) => {
                    let ghost nt = new_task@;
                    match cur {
                        Some(c) => {
                            let ghost cm = c@;
                            tasks.push(c);
                            proof {
                                assert(tasks.deep_view() =~= acc0.push(cm));
                            }
                        },
                        None => {},
                    }
                    cur = Some(new_task);
                    proof {
                        assert(tasks.deep_view() =~= flush_task(acc0, cur0));
                        assert(cur_model(&cur) == Some(nt));
                    }
                },
                None => {
                    if let Some(mut c) = cur {
                        let ghost c0 = c@;
                        if c.description.as_str().is_empty() {
                            c.description = t.to_owned();
                        } else {
                            c.description.append("\n");
                            c.description.append(t);
                        }
                        proof {
                            reveal_strlit("\n");
                            assert("\n"@ =~= seq!['\n']);
                            assert(c@ =~= append_desc(c0, spec_trim(line@)));
                        }
                        cur = Some(c);
                    } else {
                        cur = None;
                    }
                },
            }
        }
        proof {
            assert(parse_lines(lines_now, acc0, cur0) == parse_lines(
                lines_now.subrange(1, lines_now.len() as int),
                tasks.deep_view(),
                cur_model(&cur),
            ));
        }
        if last {
            break;
        }
        pos = next_pos;
    }
    if let Some(c) = cur {
        let ghost before = tasks.deep_view();
        let ghost cm = c@;
        tasks.push(c);
        proof {
            assert(tasks.deep_view() =~= before.push(cm));
        }
    }
    tasks
}

/// The marker rendered between the brackets: `x` for a completed task,
/// otherwise the time (possibly empty).
pub open spec fn render_marker(t: TaskModel) -> Seq<char> {
    if t.completed {
        seq!['x']
    } else {
        t.time
    }
}

/// The rendered header line `- [<marker>] <title>`.
pub open spec fn render_header(t: TaskModel) -> Seq<char> {
    seq!['-', ' ', '['] + render_marker(t) + seq![']', ' '] + t.title
}

/// The rendered description block: every description line indented by two
/// spaces and newline-terminated; an empty description still yields one
/// (empty) indented line.
pub open spec fn render_desc_lines(lines: Seq<Seq<char>>) -> Seq<char>
    decreases lines.len(),
{
    if lines.len() == 0 {
        Seq::empty()
    } else {
        seq![' ', ' '] + lines[0] + seq!['\n'] + render_desc_lines(
            lines.subrange(1, lines.len() as int),
        )
    }
}

/// The model of `render_task`: the text block appended to the Todo buffer
/// for a newly created task.
pub open spec fn spec_render_task(t: TaskModel) -> Seq<char> {
    render_header(t) + seq!['\n'] + render_desc_lines(spec_split_lines(t.description))
}

/// Render one task as a text block, the inverse of parsing used when the
/// wizard appends a task to the buffer.
pub fn render_task(task: &Task) -> (r: String)
    ensures
        r@ == spec_render_task(task@),
{
    let ghost t = task@;
    let mut out = String::new();
    out.append("- [");
    if task.completed {
        out.append("x");
    } else {
        out.append(task.time.as_str());
    }
    out.append("] ");
    out.append(task.title.as_str());
    out.append("\n");
    proof {
        reveal_strlit("- [");
        reveal_strlit("x");
        reveal_strlit("] ");
        reveal_strlit("\n");
        assert(out@ =~= render_header(t) + seq!['\n']);
    }
    let desc: &str = task.description.as_str();
    let dlen: usize = desc.unicode_len();
    let mut pos: usize = 0;
    proof {
        assert(desc@.subrange(0, dlen as int) =~= desc@);
        assert(out@ + render_desc_lines(spec_split_lines(desc@)) =~= spec_render_task(t));
    }
    loop
        invariant_except_break
            pos <= dlen,
            dlen == desc@.len(),
            desc@ == t.description,
            out@ + render_desc_lines(spec_split_lines(desc@.subrange(pos as int, dlen as int)))
                == spec_render_task(t),
        ensures
            out@ == spec_render_task(t),
        decreases dlen - pos,
    {
        let tail = desc.substring_char(pos, dlen);
        let ghost remaining = desc@.subrange(pos as int, dlen as int);
        let ghost lines_now = spec_split_lines(remaining);
        let ghost out0 = out@;
        proof {
            lemma_find_char(tail@, '\n');
        }
        let (line, next_pos, last) = match find_char_str(tail, '\n') {
            Some(k) => {
                proof {
                    assert(tail@.subrange(0, k as int) + seq!['\n'] + tail@.subrange(
                        k as int + 1,
                        tail@.len() as int,
                    ) =~= remaining);
                    lemma_split_lines_concat(
                        tail@.subrange(0, k as int),
                        tail@.subrange(k as int + 1, tail@.len() as int),
                    );
                }
                (tail.substring_char(0, k), pos + k + 1, false)
            },
            None => {
                proof {
                    lemma_split_lines_single(remaining);
                }
                (tail, dlen, true)
            },
        };
        out.append("  ");
        out.append(line);
        out.append("\n");
        proof {
            reveal_strlit("  ");
            reveal_strlit("\n");
            assert(out@ =~= out0 + (seq![' ', ' '] + line@ + seq!['\n']));
            if last {
                assert(lines_now =~= seq![line@]);
                assert(lines_now.subrange(1, lines_now.len() as int) =~= Seq::<Seq<char>>::empty());
                assert(render_desc_lines(lines_now) == seq![' ', ' '] + line@ + seq!['\n']
                    + render_desc_lines(Seq::empty()));
                assert(out@ =~= out0 + render_desc_lines(lines_now));
            } else {
                let rest = spec_split_lines(desc@.subrange(next_pos as int, dlen as int));
                assert(desc@.subrange(next_pos as int, dlen as int) =~= tail@.subrange(
                    line@.len() as int + 1,
                    tail@.len() as int,
                ));
                assert(lines_now =~= seq![line@] + rest);
                assert(lines_now.subrange(1, lines_now.len() as int) =~= rest);
                assert(render_desc_lines(lines_now) == seq![' ', ' '] + line@ + seq!['\n']
                    + render_desc_lines(rest));
            }
        }
        if last {
            break;
        }
        pos = next_pos;
    }
    out
}

/// Whether completion toggling matches this line: it parses as a task
/// header with the given title whose marker is not already completed.
pub open spec fn line_toggles(line: Seq<char>, title: Seq<char>) -> bool {
    match line_header(spec_trim(line)) {
        Some(h) => h.title == title && !h.completed,
        None => false,
    }
}

/// Rewrite one line's bracket contents in place: everything between the
/// first `[` and the first `]` becomes `x`; a line without that bracket
/// pair in order is left unchanged.
pub open spec fn toggle_line(line: Seq<char>) -> Seq<char> {
    match (find_char(line, '['), find_char(line, ']')) {
        (Some(i), Some(j)) => if i < j {
            line.subrange(0, i + 1) + seq!['x'] + line.subrange(j, line.len() as int)
        } else {
            line
        },
        _ => line,
    }
}

/// Toggle the first matching line, leaving every other line untouched.
pub open spec fn toggle_lines(lines: Seq<Seq<char>>, title: Seq<char>) -> Seq<Seq<char>>
    decreases lines.len(),
{
    if lines.len() == 0 {
        lines
    } else if line_toggles(lines[0], title) {
        seq![toggle_line(lines[0])] + lines.subrange(1, lines.len() as int)
    } else {
        seq![lines[0]] + toggle_lines(lines.subrange(1, lines.len() as int), title)
    }
}

proof fn lemma_toggle_lines_len(lines: Seq<Seq<char>>, title: Seq<char>)
    ensures
        toggle_lines(lines, title).len() == lines.len(),
    decreases lines.len(),
{
    if lines.len() > 0 && !line_toggles(lines[0], title) {
        lemma_toggle_lines_len(lines.subrange(1, lines.len() as int), title);
    }
}

/// Whether any line of the buffer is an open task line with this title.
pub open spec fn any_line_toggles(lines: Seq<Seq<char>>, title: Seq<char>) -> bool {
    exists|i: int| 0 <= i < lines.len() && line_toggles(lines[i], title)
}

proof fn lemma_toggle_lines_id(lines: Seq<Seq<char>>, title: Seq<char>)
    requires
        !any_line_toggles(lines, title),
    ensures
        toggle_lines(lines, title) == lines,
    decreases lines.len(),
{
    if lines.len() > 0 {
        let rest = lines.subrange(1, lines.len() as int);
        assert(!any_line_toggles(rest, title)) by {
            if any_line_toggles(rest, title) {
                let w = choose|w: int| 0 <= w < rest.len() && line_toggles(rest[w], title);
                assert(line_toggles(lines[w + 1], title));
            }
        }
        lemma_toggle_lines_id(rest, title);
        assert(toggle_lines(lines, title) =~= lines);
    }
}

/// The model of `toggle_task_completed`: the buffer with the first
/// matching task line's marker rewritten to `x`.
pub open spec fn spec_toggle_task(text: Seq<char>, title: Seq<char>) -> Seq<char> {
    spec_join_lines(toggle_lines(spec_split_lines(text), title))
}

/// The exec counterpart of `toggle_line`.
fn toggle_line_str(line: &str) -> (r: String)
    ensures
        r@ == toggle_line(line@),
{
    let len: usize = line.unicode_len();
    let open = find_char_str(line, '[');
    let close = find_char_str(line, ']');
    proof {
        lemma_find_char(line@, '[');
        lemma_find_char(line@, ']');
    }
    match (open, close) {
        (Some(i), Some(j)) => {
            if i < j {
                let mut out = line.substring_char(0, i + 1).to_owned();
                out.append("x");
                out.append(line.substring_char(j, len));
                proof {
                    reveal_strlit("x");
                    assert(out@ =~= toggle_line(line@));
                }
                out
            } else {
                line.to_owned()
            }
        },
        _ => line.to_owned(),
    }
}

spec fn tjoin(lines: Seq<Seq<char>>, title: Seq<char>, done: bool) -> Seq<char> {
    if done {
        spec_join_lines(lines)
    } else {
        spec_join_lines(toggle_lines(lines, title))
    }
}

/// Mark the first still-open task line carrying `title` as completed by
/// rewriting its bracket contents to `x` in place, leaving the rest of
/// the buffer unchanged; a buffer with no such line comes back verbatim.
#[verifier::rlimit(50)]
pub fn toggle_task_completed(text: &str, title: &str) -> (r: String)
    ensures
        r@ == spec_toggle_task(text@, title@),
        !any_line_toggles(spec_split_lines(text@), title@) ==> r@ == text@,
{
    proof {
        if !any_line_toggles(spec_split_lines(text@), title@) {
            lemma_toggle_lines_id(spec_split_lines(text@), title@);
            lemma_join_split_lines(text@);
        }
    }
    let total: usize = text.unicode_len();
    let mut out = String::new();
    let mut done = false;
    let mut pos: usize = 0;
    proof {
        assert(text@.subrange(0, total as int) =~= text@);
        assert(out@ + Seq::<char>::empty() + tjoin(spec_split_lines(text@), title@, false)
            =~= spec_toggle_task(text@, title@));
    }
    loop
        invariant_except_break
            pos <= total,
            total == text@.len(),
            out@ + (if pos == 0 {
                Seq::<char>::empty()
            } else {
                seq!['\n']
            }) + tjoin(
                spec_split_lines(text@.subrange(pos as int, total as int)),
                title@,
                done,
            ) == spec_toggle_task(text@, title@),
        ensures
            out@ == spec_toggle_task(text@, title@),
        decreases total - pos,
    {
        let tail = text.substring_char(pos, total);
        let ghost remaining = text@.subrange(pos as int, total as int);
        let ghost lines_now = spec_split_lines(remaining);
        let ghost out0 = out@;
        let ghost done0 = done;
        let ghost sep0: Seq<char> = if pos == 0 {
            Seq::empty()
        } else {
            seq!['\n']
        };
        proof {
            lemma_find_char(tail@, '\n');
        }
        let (line, next_pos, last) = match find_char_str(tail, '\n') {
            Some(k) => {
                proof {
                    assert(tail@.subrange(0, k as int) + seq!['\n'] + tail@.subrange(
                        k as int + 1,
                        tail@.len() as int,
                    ) =~= remaining);
                    lemma_split_lines_concat(
                        tail@.subrange(0, k as int),
                        tail@.subrange(k as int + 1, tail@.len() as int),
                    );
                }
                (tail.substring_char(0, k), pos + k + 1, false)
            },
            None => {
                proof {
                    lemma_split_lines_single(remaining);
                }
                (tail, total, true)
            },
        };
        let ghost lines_rest = spec_split_lines(text@.subrange(next_pos as int, total as int));
        proof {
            if last {
                assert(lines_now =~= seq![line@]);
            } else {
                assert(text@.subrange(next_pos as int, total as int) =~= tail@.subrange(
                    line@.len() as int + 1,
                    tail@.len() as int,
                ));
                assert(lines_now =~= seq![line@] + lines_rest);
                lemma_split_lines_len(text@.subrange(next_pos as int, total as int));
            }
            assert(lines_now.len() > 0 && lines_now[0] == line@);
        }
        if pos > 0 {
            out.append("\n");
            proof {
                reveal_strlit("\n");
                assert(out@ =~= out0 + sep0);
            }
        }
        let ghost out1 = out@;
        proof {
            assert(out1 == out0 + sep0);
        }
        let matches_here = if done {
            false
        } else {
            let trimmed = trim_str(line);
            match parse_header(trimmed) {
                Some(h) => !h.completed && crate::text::str_eq(h.title.as_str(), title),
                None => false,
            }
        };
        proof {
            if !done0 {
                assert(matches_here == line_toggles(line@, title@));
            }
        }
        if matches_here {
            let toggled = toggle_line_str(line);
            out.append(toggled.as_str());
            done = true;
            proof {
                assert(toggle_lines(lines_now, title@) == seq![toggle_line(line@)]
                    + lines_now.subrange(1, lines_now.len() as int));
                if last {
                    assert(lines_now.subrange(1, lines_now.len() as int)
                        =~= Seq::<Seq<char>>::empty());
                    assert(tjoin(lines_now, title@, false) == toggle_line(line@));
                } else {
                    assert(lines_now.subrange(1, lines_now.len() as int) =~= lines_rest);
                    let tl = toggle_lines(lines_now, title@);
                    assert(tl.len() == 1 + lines_rest.len());
                    assert(tl[0] == toggle_line(line@));
                    assert(tl.subrange(1, tl.len() as int) =~= lines_rest);
                    assert(spec_join_lines(tl) == toggle_line(line@) + seq!['\n']
                        + spec_join_lines(lines_rest));
                }
                assert(out@ =~= out1 + toggle_line(line@));
            }
        } else {
            out.append(line);
            proof {
                if !done0 {
                    lemma_toggle_lines_len(
                        lines_now.subrange(1, lines_now.len() as int),
                        title@,
                    );
                    assert(toggle_lines(lines_now, title@) == seq![line@] + toggle_lines(
                        lines_now.subrange(1, lines_now.len() as int),
                        title@,
                    ));
                }
                if last {
                    assert(lines_now.subrange(1, lines_now.len() as int)
                        =~= Seq::<Seq<char>>::empty());
                    assert(tjoin(lines_now, title@, done0) == line@);
                } else {
                    assert(lines_now.subrange(1, lines_now.len() as int) =~= lines_rest);
                    if done0 {
                        assert(lines_now[0] == line@);
                        assert(spec_join_lines(lines_now) == line@ + seq!['\n'] + spec_join_lines(
                            lines_rest,
                        ));
                    } else {
                        let tl = toggle_lines(lines_now, title@);
                        assert(tl == seq![line@] + toggle_lines(lines_rest, title@));
                        assert(tl.len() == 1 + lines_rest.len());
                        assert(tl[0] == line@);
                        assert(tl.subrange(1, tl.len() as int) =~= toggle_lines(
                            lines_rest,
                            title@,
                        ));
                        assert(spec_join_lines(tl) == line@ + seq!['\n'] + spec_join_lines(
                            toggle_lines(lines_rest, title@),
                        ));
                    }
                    assert(tjoin(lines_now, title@, done0) == line@ + seq!['\n'] + tjoin(
                        lines_rest,
                        title@,
                        done0,
                    ));
                }
                assert(out@ =~= out1 + line@);
            }
        }
        if last {
            proof {
                assert(out@ == spec_toggle_task(text@, title@));
            }
            break;
        }
        pos = next_pos;
        proof {
            assert(pos > 0);
        }
    }
    out
}

/// The fold that parsing applies to description lines: trimmed, empty
/// lines dropped, the rest newline-joined onto `d`.
pub open spec fn desc_fold(d: Seq<char>, lines: Seq<Seq<char>>) -> Seq<char>
    decreases lines.len(),
{
    if lines.len() == 0 {
        d
    } else {
        let l = spec_trim(lines[0]);
        desc_fold(
            if l.len() == 0 {
                d
            } else if d.len() == 0 {
                l
            } else {
                d + seq!['\n'] + l
            },
            lines.subrange(1, lines.len() as int),
        )
    }
}

/// Description text as parsing normalizes it: every line trimmed, empty
/// lines dropped, the rest newline-joined.
pub open spec fn normalize_desc(d: Seq<char>) -> Seq<char> {
    desc_fold(Seq::empty(), spec_split_lines(d))
}

/// No line of the description would itself parse as a task header.
pub open spec fn desc_lines_plain(d: Seq<char>) -> bool {
    forall|i: int|
        0 <= i < spec_split_lines(d).len() ==> line_header(
            spec_trim(#[trigger] spec_split_lines(d)[i]),
        ) is None
}

/// A task whose rendered block parses back: title and time carry no line
/// break and no surrounding whitespace, the time contains neither a
/// closing bracket nor the completion letter, a completed task has no
/// time, and no description line looks like a task header.
pub open spec fn renderable(t: TaskModel) -> bool {
    &&& spec_trim(t.title) == t.title
    &&& !contains_char(t.title, '\n')
    &&& spec_trim(t.time) == t.time
    &&& !contains_char(t.time, '\n')
    &&& !contains_char(t.time, ']')
    &&& !marker_completed(t.time)
    &&& (t.completed ==> t.time.len() == 0)
    &&& desc_lines_plain(t.description)
}

/// No line produced by splitting contains a line break.
proof fn lemma_split_lines_elems(s: Seq<char>)
    ensures
        forall|i: int|
            0 <= i < spec_split_lines(s).len() ==> !contains_char(
                #[trigger] spec_split_lines(s)[i],
                '\n',
            ),
    decreases s.len(),
{
    lemma_find_char(s, '\n');
    match find_char(s, '\n') {
        None => {
            assert(spec_split_lines(s) == seq![s]);
        },
        Some(i) => {
            let pre = s.subrange(0, i);
            let rest = s.subrange(i + 1, s.len() as int);
            assert(!contains_char(pre, '\n')) by {
                if contains_char(pre, '\n') {
                    let w = choose|w: int| 0 <= w < pre.len() && pre[w] == '\n';
                    assert(s[w] == '\n');
                }
            }
            lemma_split_lines_elems(rest);
            assert(spec_split_lines(s) == seq![pre] + spec_split_lines(rest));
            assert forall|k: int| 0 <= k < spec_split_lines(s).len() implies !contains_char(
                #[trigger] spec_split_lines(s)[k],
                '\n',
            ) by {
                if k > 0 {
                    assert(spec_split_lines(s)[k] == spec_split_lines(rest)[k - 1]);
                }
            }
        },
    }
}

/// Trimming ignores a two-space indent.
proof fn lemma_trim_indent(l: Seq<char>)
    ensures
        spec_trim(seq![' ', ' '] + l) == spec_trim(l),
{
    let s2 = seq![' ', ' '] + l;
    let s1 = seq![' '] + l;
    assert(is_space(s2[0]));
    assert(s2.subrange(1, s2.len() as int) =~= s1);
    assert(crate::text::trim_front(s2) == crate::text::trim_front(s1));
    assert(is_space(s1[0]));
    assert(s1.subrange(1, s1.len() as int) =~= l);
    assert(crate::text::trim_front(s1) == crate::text::trim_front(l));
}

/// The indented forms of the description lines.
pub open spec fn indent_seq(lines: Seq<Seq<char>>) -> Seq<Seq<char>> {
    Seq::new(lines.len(), |i: int| seq![' ', ' '] + lines[i])
}

/// Splitting a rendered description block yields the indented lines plus a
/// final empty line.
proof fn lemma_split_render_desc(lines: Seq<Seq<char>>)
    requires
        forall|i: int| 0 <= i < lines.len() ==> !contains_char(#[trigger] lines[i], '\n'),
    ensures
        spec_split_lines(render_desc_lines(lines)) == indent_seq(lines) + seq![
            Seq::<char>::empty(),
        ],
    decreases lines.len(),
{
    if lines.len() == 0 {
        assert(!contains_char(Seq::<char>::empty(), '\n'));
        lemma_split_lines_single(Seq::<char>::empty());
        assert(render_desc_lines(lines) == Seq::<char>::empty());
        assert(spec_split_lines(render_desc_lines(lines)) =~= indent_seq(lines) + seq![
            Seq::<char>::empty(),
        ]);
    } else {
        let a = seq![' ', ' '] + lines[0];
        let rest = lines.subrange(1, lines.len() as int);
        assert(!contains_char(a, '\n')) by {
            if contains_char(a, '\n') {
                let w = choose|w: int| 0 <= w < a.len() && a[w] == '\n';
                assert(lines[0][w - 2] == '\n');
                assert(contains_char(lines[0], '\n'));
            }
        }
        lemma_split_render_desc(rest);
        lemma_split_lines_concat(a, render_desc_lines(rest));
        assert(render_desc_lines(lines) == a + seq!['\n'] + render_desc_lines(rest));
        assert(spec_split_lines(render_desc_lines(lines)) =~= indent_seq(lines) + seq![
            Seq::<char>::empty(),
        ]);
    }
}

/// Parsing the rendered description lines (plus the final empty line)
/// extends the current task's description by the normalizing fold and
/// flushes it.
proof fn lemma_parse_desc(lines: Seq<Seq<char>>, acc: Seq<TaskModel>, t: TaskModel)
    requires
        forall|i: int|
            0 <= i < lines.len() ==> line_header(spec_trim(#[trigger] lines[i])) is None,
    ensures
        parse_lines(indent_seq(lines) + seq![Seq::<char>::empty()], acc, Some(t)) == acc.push(
            TaskModel { description: desc_fold(t.description, lines), ..t },
        ),
    decreases lines.len(),
{
    if lines.len() == 0 {
        let ls = indent_seq(lines) + seq![Seq::<char>::empty()];
        assert(ls =~= seq![Seq::<char>::empty()]);
        assert(ls[0] == Seq::<char>::empty());
        assert(spec_trim(Seq::<char>::empty()).len() == 0);
        assert(ls.subrange(1, ls.len() as int) =~= Seq::<Seq<char>>::empty());
        assert(parse_lines(ls, acc, Some(t)) == parse_lines(
            ls.subrange(1, ls.len() as int),
            acc,
            Some(t),
        ));
        assert(parse_lines(Seq::<Seq<char>>::empty(), acc, Some(t)) == acc.push(t));
        assert(TaskModel { description: desc_fold(t.description, lines), ..t } =~= t);
    } else {
        let ls = indent_seq(lines) + seq![Seq::<char>::empty()];
        let rest = lines.subrange(1, lines.len() as int);
        let ls1 = indent_seq(rest) + seq![Seq::<char>::empty()];
        assert(ls.len() > 0 && ls[0] == seq![' ', ' '] + lines[0]);
        assert(ls.subrange(1, ls.len() as int) =~= ls1);
        lemma_trim_indent(lines[0]);
        let l = spec_trim(lines[0]);
        if l.len() == 0 {
            lemma_parse_desc(rest, acc, t);
            assert(parse_lines(ls, acc, Some(t)) == parse_lines(ls1, acc, Some(t)));
        } else {
            let t1 = append_desc(t, l);
            lemma_parse_desc(rest, acc, t1);
            assert(parse_lines(ls, acc, Some(t)) == parse_lines(ls1, acc, Some(t1)));
            assert(TaskModel { description: desc_fold(t1.description, rest), ..t1 }
                =~= TaskModel { description: desc_fold(t.description, lines), ..t });
        }
    }
}

/// The rendered header line contains no line break, and trims to a line
/// that parses back to the task's own title, time and completion flag.
proof fn lemma_render_header_line(t: TaskModel)
    requires
        renderable(t),
    ensures
        !contains_char(render_header(t), '\n'),
        spec_trim(render_header(t)).len() > 0,
        line_header(spec_trim(render_header(t))) == Some(
            TaskModel {
                title: t.title,
                description: Seq::empty(),
                time: t.time,
                completed: t.completed,
            },
        ),
{
    let m = render_marker(t);
    let hl = render_header(t);
    assert(!contains_char(m, '\n') && !contains_char(m, ']')) by {
        if t.completed {
            if contains_char(m, '\n') {
                let w = choose|w: int| 0 <= w < m.len() && m[w] == '\n';
            }
            if contains_char(m, ']') {
                let w = choose|w: int| 0 <= w < m.len() && m[w] == ']';
            }
        }
    }
    assert(!contains_char(hl, '\n')) by {
        if contains_char(hl, '\n') {
            let w = choose|w: int| 0 <= w < hl.len() && hl[w] == '\n';
            if 3 <= w < 3 + m.len() {
                assert(m[w - 3] == '\n');
                assert(contains_char(m, '\n'));
            } else if 5 + m.len() <= w {
                assert(t.title[w - 5 - m.len()] == '\n');
                assert(contains_char(t.title, '\n'));
            }
        }
    }
    lemma_trim_front_at(hl, 0);
    assert(crate::text::trim_front(hl) =~= hl);
    let tr = spec_trim(hl);
    if t.title.len() > 0 {
        lemma_trim_no_edge_space(t.title);
        assert(!is_space(t.title[t.title.len() - 1]));
        assert(hl[hl.len() - 1] == t.title[t.title.len() - 1]);
        lemma_trim_back_at(hl, hl.len() as int);
        assert(tr =~= hl);
    } else {
        assert(hl[hl.len() - 1] == ' ');
        assert(hl[hl.len() - 2] == ']');
        lemma_trim_back_at(hl, hl.len() - 1);
        assert(tr =~= seq!['-', ' ', '['] + m + seq![']']);
    }
    assert(starts_task_at(tr, 0));
    lemma_find_task_start_at(tr, 0);
    let rest = tr.subrange(3, tr.len() as int);
    assert(forall|k: int| 0 <= k < m.len() ==> rest[k] == m[k] && m[k] != ']') by {
        assert(forall|k: int| 0 <= k < m.len() ==> rest[k] == m[k]);
        if exists|k: int| 0 <= k < m.len() && m[k] == ']' {
            let w = choose|w: int| 0 <= w < m.len() && m[w] == ']';
            assert(contains_char(m, ']'));
        }
    }
    assert(rest[m.len() as int] == ']');
    lemma_find_char_at(rest, ']', m.len() as int);
    let inside = rest.subrange(0, m.len() as int);
    assert(inside =~= m);
    let tp = rest.subrange(m.len() as int + 1, rest.len() as int);
    if t.title.len() > 0 {
        assert(tp =~= seq![' '] + t.title);
        lemma_trim_no_edge_space(t.title);
        lemma_trim_front_at(tp, 1);
        assert(tp.subrange(1, tp.len() as int) =~= t.title);
        lemma_trim_back_at(t.title, t.title.len() as int);
        assert(t.title.subrange(0, t.title.len() as int) =~= t.title);
        assert(spec_trim(tp) == t.title);
    } else {
        assert(tp =~= Seq::<char>::empty());
        assert(spec_trim(tp) =~= t.title);
    }
    if t.completed {
        assert(m[0] == 'x');
        assert(contains_char(m, 'x'));
        assert(marker_completed(inside));
        let parsed_time = Seq::<char>::empty();
        assert(parsed_time =~= t.time);
    } else {
        assert(!marker_completed(inside));
        if t.time.len() > 0 {
            assert(spec_trim(inside) == t.time);
        } else {
            assert(inside =~= Seq::<char>::empty());
            assert(spec_trim(inside) =~= t.time);
        }
    }
    assert(line_header(tr) == Some(
        TaskModel {
            title: t.title,
            description: Seq::empty(),
            time: t.time,
            completed: t.completed,
        },
    ));
}

/// Round-trip stability: the block `render_task` produces parses back to
/// exactly the same task, except that the description is normalized (lines
/// trimmed, empty lines dropped).
pub proof fn lemma_parse_render_round_trip(t: TaskModel)
    requires
        renderable(t),
    ensures
        spec_parse_tasks(spec_render_task(t)) == seq![
            TaskModel { description: normalize_desc(t.description), ..t },
        ],
{
    let hl = render_header(t);
    let dl = spec_split_lines(t.description);
    let body = render_desc_lines(dl);
    lemma_render_header_line(t);
    lemma_split_lines_elems(t.description);
    lemma_split_render_desc(dl);
    lemma_split_lines_concat(hl, body);
    let full = spec_render_task(t);
    assert(full =~= hl + seq!['\n'] + body);
    let lines = spec_split_lines(full);
    assert(lines == seq![hl] + spec_split_lines(body));
    assert(lines =~= seq![hl] + (indent_seq(dl) + seq![Seq::<char>::empty()]));
    let t0 = TaskModel {
        title: t.title,
        description: Seq::empty(),
        time: t.time,
        completed: t.completed,
    };
    assert(lines.len() > 0 && lines[0] == hl);
    assert(lines.subrange(1, lines.len() as int) =~= indent_seq(dl) + seq![Seq::<char>::empty()]);
    assert(parse_lines(lines, Seq::empty(), None) == parse_lines(
        indent_seq(dl) + seq![Seq::<char>::empty()],
        Seq::empty(),
        Some(t0),
    ));
    lemma_parse_desc(dl, Seq::empty(), t0);
    assert(Seq::<TaskModel>::empty().push(
        TaskModel { description: desc_fold(Seq::empty(), dl), ..t0 },
    ) =~= seq![TaskModel { description: normalize_desc(t.description), ..t }]);
}

} // verus!
