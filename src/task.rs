//! Task-list documents: a two-state line machine that turns the text of one
//! document into task records.
use vstd::prelude::*;
use crate::text::{
    after_first, after_first_char, chars_of, contains, has_infix, has_prefix, lines_of,
    split_lines, starts_with, string_of, trim, trimmed, views,
};

verus! {

/// The state of a task, and the status category of a feature or phase.
#[derive(Clone, Copy, Debug, PartialEq, Eq, Structural)]
pub enum Status {
    NotStarted,
    InProgress,
    Completed,
    Blocked,
}

impl Status {
    /// How a task-list document writes the status.
    pub open spec fn label_spec(self) -> Seq<char> {
        match self {
            Status::NotStarted => "Not Started"@,
            Status::InProgress => "In Progress"@,
            Status::Completed => "Completed"@,
            Status::Blocked => "Blocked"@,
        }
    }

    /// How a persisted progress record writes the status.
    pub open spec fn code_spec(self) -> Seq<char> {
        match self {
            Status::NotStarted => "not_started"@,
            Status::InProgress => "in_progress"@,
            Status::Completed => "completed"@,
            Status::Blocked => "blocked"@,
        }
    }

    /// How a task-list document writes the status.
    pub fn label(&self) -> (r: String)
        ensures
            r@ == self.label_spec(),
    {
        match self {
            Status::NotStarted => "Not Started".to_string(),
            Status::InProgress => "In Progress".to_string(),
            Status::Completed => "Completed".to_string(),
            Status::Blocked => "Blocked".to_string(),
        }
    }

    /// How a persisted progress record writes the status.
    pub fn code(&self) -> (r: String)
        ensures
            r@ == self.code_spec(),
    {
        match self {
            Status::NotStarted => "not_started".to_string(),
            Status::InProgress => "in_progress".to_string(),
            Status::Completed => "completed".to_string(),
            Status::Blocked => "blocked".to_string(),
        }
    }
}

/// One task of a task-list document.
pub struct TaskRecord {
    pub name: String,
    pub status: Status,
    pub estimated_effort: String,
}

/// What a task record holds.
pub ghost struct TaskView {
    pub name: Seq<char>,
    pub status: Status,
    pub effort: Seq<char>,
}

impl View for TaskRecord {
    type V = TaskView;

    open spec fn view(&self) -> TaskView {
        TaskView { name: self.name@, status: self.status, effort: self.estimated_effort@ }
    }
}

/// The views of a sequence of task records.
pub open spec fn task_views(v: Seq<TaskRecord>) -> Seq<TaskView> {
    v.map_values(|t: TaskRecord| t@)
}

/// The heading that opens a task.
pub open spec fn task_marker() -> Seq<char> {
    "#### Task"@
}

/// The field that holds a task's status.
pub open spec fn status_marker() -> Seq<char> {
    "**Status**"@
}

/// The field that holds a task's estimated effort.
pub open spec fn effort_marker() -> Seq<char> {
    "**Estimated Time**"@
}

/// The effort of a task whose document gives none.
pub open spec fn unknown_effort() -> Seq<char> {
    "Unknown"@
}

/// A line that opens a new task.
pub open spec fn is_heading(line: Seq<char>) -> bool {
    has_prefix(line, task_marker())
}

/// The name of the task that a heading line opens.
pub open spec fn heading_name(line: Seq<char>) -> Seq<char> {
    trim(line.subrange(task_marker().len() as int, line.len() as int))
}

/// The status that a status line selects: the first checked box among
/// Completed, In Progress and Blocked (either case of the check letter), else
/// Not Started.
pub open spec fn status_of_line(line: Seq<char>) -> Status {
    if has_infix(line, "[x] Completed"@) || has_infix(line, "[X] Completed"@) {
        Status::Completed
    } else if has_infix(line, "[x] In Progress"@) || has_infix(line, "[X] In Progress"@) {
        Status::InProgress
    } else if has_infix(line, "[x] Blocked"@) || has_infix(line, "[X] Blocked"@) {
        Status::Blocked
    } else {
        Status::NotStarted
    }
}

/// A task just opened by a heading line.
pub open spec fn new_task(line: Seq<char>) -> TaskView {
    TaskView { name: heading_name(line), status: Status::NotStarted, effort: unknown_effort() }
}

/// What a line inside a task does to it.
pub open spec fn apply_line(t: TaskView, line: Seq<char>) -> TaskView {
    if has_infix(line, status_marker()) {
        TaskView { name: t.name, status: status_of_line(line), effort: t.effort }
    } else if has_infix(line, effort_marker()) {
        match after_first(line, ':') {
            Some(v) => TaskView { name: t.name, status: t.status, effort: trim(v) },
            None => t,
        }
    } else {
        t
    }
}

/// The parser's state: the tasks already closed, and the one still open.
pub ghost struct ParseState {
    pub done: Seq<TaskView>,
    pub open: Option<TaskView>,
}

/// The closed tasks followed by the open one, if any.
pub open spec fn flushed(st: ParseState) -> Seq<TaskView> {
    match st.open {
        Some(t) => st.done.push(t),
        None => st.done,
    }
}

/// One transition of the line machine.
pub open spec fn step(st: ParseState, line: Seq<char>) -> ParseState {
    if is_heading(line) {
        ParseState { done: flushed(st), open: Some(new_task(line)) }
    } else {
        match st.open {
            None => st,
            Some(t) => ParseState { done: st.done, open: Some(apply_line(t, line)) },
        }
    }
}

/// The state after the given lines, from outside any task.
pub open spec fn run_lines(lines: Seq<Seq<char>>) -> ParseState
    decreases lines.len(),
{
    if lines.len() == 0 {
        ParseState { done: Seq::empty(), open: None }
    } else {
        step(run_lines(lines.drop_last()), lines.last())
    }
}

/// The tasks of a task-list document, in order; the task still open at the
/// end of the text is included.
pub open spec fn tasks_of(text: Seq<char>) -> Seq<TaskView> {
    flushed(run_lines(split_lines(text)))
}

/// The number of heading lines among `lines`.
pub open spec fn heading_count(lines: Seq<Seq<char>>) -> nat
    decreases lines.len(),
{
    if lines.len() == 0 {
        0
    } else {
        heading_count(lines.drop_last()) + if is_heading(lines.last()) {
            1nat
        } else {
            0nat
        }
    }
}

/// The patterns that the parser looks for, as characters.
struct Syntax {
    task: Vec<char>,
    status: Vec<char>,
    effort: Vec<char>,
    completed: [Vec<char>; 2],
    in_progress: [Vec<char>; 2],
    blocked: [Vec<char>; 2],
}

impl Syntax {
    spec fn wf(&self) -> bool {
        &&& self.task@ == task_marker()
        &&& self.status@ == status_marker()
        &&& self.effort@ == effort_marker()
        &&& self.completed[0]@ == "[x] Completed"@
        &&& self.completed[1]@ == "[X] Completed"@
        &&& self.in_progress[0]@ == "[x] In Progress"@
        &&& self.in_progress[1]@ == "[X] In Progress"@
        &&& self.blocked[0]@ == "[x] Blocked"@
        &&& self.blocked[1]@ == "[X] Blocked"@
    }

    fn new() -> (r: Syntax)
        ensures
            r.wf(),
    {
        Syntax {
            task: chars_of("#### Task"),
            status: chars_of("**Status**"),
            effort: chars_of("**Estimated Time**"),
            completed: [chars_of("[x] Completed"), chars_of("[X] Completed")],
            in_progress: [chars_of("[x] In Progress"), chars_of("[X] In Progress")],
            blocked: [chars_of("[x] Blocked"), chars_of("[X] Blocked")],
        }
    }

    fn checked(line: &[char], pats: &[Vec<char>; 2]) -> (r: bool)
        ensures
            r == (has_infix(line@, pats[0]@) || has_infix(line@, pats[1]@)),
    {
        contains(line, pats[0].as_slice()) || contains(line, pats[1].as_slice())
    }

    fn status_of(&self, line: &[char]) -> (r: Status)
        requires
            self.wf(),
        ensures
            r == status_of_line(line@),
    {
        if Self::checked(line, &self.completed) {
            Status::Completed
        } else if Self::checked(line, &self.in_progress) {
            Status::InProgress
        } else if Self::checked(line, &self.blocked) {
            Status::Blocked
        } else {
            Status::NotStarted
        }
    }

    fn apply(&self, t: TaskRecord, line: &[char]) -> (r: TaskRecord)
        requires
            self.wf(),
        ensures
            r@ == apply_line(t@, line@),
    {
        if contains(line, self.status.as_slice()) {
            TaskRecord { name: t.name, status: self.status_of(line), estimated_effort: t.estimated_effort }
        } else if contains(line, self.effort.as_slice()) {
            match after_first_char(line, ':') {
                Some(v) => {
                    let e = trimmed(v.as_slice());
                    TaskRecord { name: t.name, status: t.status, estimated_effort: string_of(e.as_slice()) }
                },
                None => t,
            }
        } else {
            t
        }
    }
}

/// The views of a parser state held in executable form.
spec fn state_view(done: Seq<TaskRecord>, open: Option<TaskRecord>) -> ParseState {
    ParseState {
        done: task_views(done),
        open: match open {
            Some(t) => Some(t@),
            None => None,
        },
    }
}

/// Parses a task-list document into its tasks. A line beginning with
/// `#### Task` closes the open task and opens a new one named by the rest of
/// the line; inside a task, a `**Status**` line sets its status and an
/// `**Estimated Time**` line its effort (the text after the first colon).
/// Other lines are ignored; parsing never fails.
pub fn parse_tasks(content: &str) -> (r: Vec<TaskRecord>)
    ensures
        task_views(r@) == tasks_of(content@),
{
    let syn = Syntax::new();
    let text = chars_of(content);
    let lines = lines_of(text.as_slice());
    let mut done: Vec<TaskRecord> = Vec::new();
    let mut open: Option<TaskRecord> = None;
    let n = lines.len();
    assert(views(lines@).take(0) =~= Seq::<Seq<char>>::empty());
    assert(task_views(done@) =~= Seq::<TaskView>::empty());
    for i in 0..n
        invariant
            n == lines@.len(),
            syn.wf(),
            state_view(done@, open) == run_lines(views(lines@).take(i as int)),
    {
        let line = lines[i].as_slice();
        let ghost ls = views(lines@);
        assert(ls.take(i + 1).drop_last() =~= ls.take(i as int));
        assert(ls.take(i + 1).last() == line@);
        if starts_with(line, syn.task.as_slice()) {
            match open {
                Some(t) => {
                    done.push(t);
                },
                None => {},
            }
            let rest = slice_of_after(line, syn.task.len());
            let name = trimmed(rest.as_slice());
            open = Some(
                TaskRecord {
                    name: string_of(name.as_slice()),
                    status: Status::NotStarted,
                    estimated_effort: "Unknown".to_string(),
                },
            );
            assert(task_views(done@) =~= run_lines(ls.take(i + 1)).done);
        } else {
            open = match open {
                Some(t) => Some(syn.apply(t, line)),
                None => None,
            };
        }
    }
    assert(views(lines@).take(n as int) =~= views(lines@));
    match open {
        Some(t) => {
            done.push(t);
        },
        None => {},
    }
    assert(task_views(done@) =~= tasks_of(content@));
    done
}

/// What follows the first `k` characters of `line`.
fn slice_of_after(line: &[char], k: usize) -> (r: Vec<char>)
    requires
        k <= line@.len(),
    ensures
        r@ == line@.subrange(k as int, line@.len() as int),
{
    crate::text::slice_of(line, k, line.len())
}

/// Each heading line opens exactly one task: the parsed sequence has one
/// record per heading line, the last task included.
pub proof fn lemma_task_count(text: Seq<char>)
    ensures
        tasks_of(text).len() == heading_count(split_lines(text)),
{
    lemma_run_count(split_lines(text));
}

proof fn lemma_run_count(lines: Seq<Seq<char>>)
    ensures
        flushed(run_lines(lines)).len() == heading_count(lines),
        run_lines(lines).open is None <==> heading_count(lines) == 0,
    decreases lines.len(),
{
    if lines.len() > 0 {
        lemma_run_count(lines.drop_last());
    }
}

} // verus!
