//! The recommendation engine: gathers the tasks not yet completed, with the
//! context of their feature, and picks the single best next one.
use vstd::prelude::*;
use crate::task::{Status, TaskView, parse_tasks, task_views, tasks_of};
use crate::text::{
    chars_of, decimal, lower_of, lowercase, push_decimal, push_str, same_chars, string_of,
};

verus! {

/// Where a task comes from: its feature and what is known of that feature.
pub struct FeatureContext {
    pub feature_path: String,
    pub phase_name: String,
    pub feature_name: String,
    pub priority: String,
    /// The feature's completion, in hundredths of a percent.
    pub progress: u32,
}

/// A task that is not completed, with the context of its feature.
pub struct OpenTask {
    pub feature_path: String,
    pub phase_name: String,
    pub feature_name: String,
    pub priority: String,
    pub task_name: String,
    pub status: Status,
    pub estimated_time: String,
    /// The feature's completion, in hundredths of a percent.
    pub progress: u32,
}

/// What an open task holds.
pub ghost struct OpenTaskView {
    pub feature_path: Seq<char>,
    pub phase_name: Seq<char>,
    pub feature_name: Seq<char>,
    pub priority: Seq<char>,
    pub task_name: Seq<char>,
    pub status: Status,
    pub estimated_time: Seq<char>,
    pub progress: u32,
}

impl View for OpenTask {
    type V = OpenTaskView;

    open spec fn view(&self) -> OpenTaskView {
        OpenTaskView {
            feature_path: self.feature_path@,
            phase_name: self.phase_name@,
            feature_name: self.feature_name@,
            priority: self.priority@,
            task_name: self.task_name@,
            status: self.status,
            estimated_time: self.estimated_time@,
            progress: self.progress,
        }
    }
}

/// The views of open tasks.
pub open spec fn open_views(ts: Seq<OpenTask>) -> Seq<OpenTaskView> {
    ts.map_values(|t: OpenTask| t@)
}

/// The tasks of `ts` that are not completed, in order.
pub open spec fn incomplete(ts: Seq<TaskView>) -> Seq<TaskView>
    decreases ts.len(),
{
    if ts.len() == 0 {
        Seq::empty()
    } else if ts.last().status == Status::Completed {
        incomplete(ts.drop_last())
    } else {
        incomplete(ts.drop_last()).push(ts.last())
    }
}

/// Task `t` in the context `ctx`.
pub open spec fn in_context(ctx: &FeatureContext, t: TaskView) -> OpenTaskView {
    OpenTaskView {
        feature_path: ctx.feature_path@,
        phase_name: ctx.phase_name@,
        feature_name: ctx.feature_name@,
        priority: ctx.priority@,
        task_name: t.name,
        status: t.status,
        estimated_time: t.effort,
        progress: ctx.progress,
    }
}

/// The open tasks of a task-list document, in the context of its feature.
pub open spec fn pending_of(ctx: &FeatureContext, text: Seq<char>) -> Seq<OpenTaskView> {
    incomplete(tasks_of(text)).map_values(|t: TaskView| in_context(ctx, t))
}

/// Parses a task-list document and appends, in order, its tasks that are not
/// completed, each with the context of its feature.
pub fn collect_open_tasks(content: &str, ctx: &FeatureContext, tasks: &mut Vec<OpenTask>)
    ensures
        open_views(final(tasks)@) == open_views(old(tasks)@) + pending_of(ctx, content@),
{
    let records = parse_tasks(content);
    let ghost ts = task_views(records@);
    let ghost start = open_views(tasks@);
    assert(ts.take(0) =~= Seq::<TaskView>::empty());
    assert(start + incomplete(ts.take(0)).map_values(|t: TaskView| in_context(ctx, t)) =~= start);
    for i in 0..records.len()
        invariant
            ts == task_views(records@),
            open_views(tasks@) == start + incomplete(ts.take(i as int)).map_values(
                |t: TaskView| in_context(ctx, t),
            ),
    {
        assert(ts.take(i + 1).drop_last() =~= ts.take(i as int));
        assert(ts.take(i + 1).last() == records@[i as int]@);
        let r = &records[i];
        if r.status != Status::Completed {
            let t = OpenTask {
                feature_path: ctx.feature_path.clone(),
                phase_name: ctx.phase_name.clone(),
                feature_name: ctx.feature_name.clone(),
                priority: ctx.priority.clone(),
                task_name: r.name.clone(),
                status: r.status,
                estimated_time: r.estimated_effort.clone(),
                progress: ctx.progress,
            };
            let ghost before = tasks@;
            let ghost tv = t@;
            assert(tv == in_context(ctx, records@[i as int]@));
            tasks.push(t);
            assert(open_views(tasks@) =~= open_views(before).push(tv));
            assert(incomplete(ts.take(i + 1)) == incomplete(ts.take(i as int)).push(
                records@[i as int]@,
            ));
            assert(incomplete(ts.take(i + 1)).map_values(|t: TaskView| in_context(ctx, t))
                =~= incomplete(ts.take(i as int)).map_values(|t: TaskView| in_context(ctx, t)).push(
                tv,
            ));
        }
        assert(open_views(tasks@) =~= start + incomplete(ts.take(i + 1)).map_values(
            |t: TaskView| in_context(ctx, t),
        ));
    }
    assert(ts.take(records@.len() as int) =~= ts);
}

/// The rank of a lower-cased priority: high first, then medium, then low,
/// then anything else.
pub open spec fn priority_rank_of(lowered: Seq<char>) -> u8 {
    if lowered == "high"@ {
        0
    } else if lowered == "medium"@ {
        1
    } else if lowered == "low"@ {
        2
    } else {
        3
    }
}

/// The rank of a status: in progress first, then not started, then blocked.
pub open spec fn status_rank_of(s: Status) -> u8 {
    match s {
        Status::InProgress => 0,
        Status::NotStarted => 1,
        Status::Blocked => 2,
        Status::Completed => 3,
    }
}

/// The sort key of an open task: its priority rank, then its status rank.
pub open spec fn key_of(t: OpenTaskView) -> (u8, u8) {
    (priority_rank_of(lower_of(t.priority)), status_rank_of(t.status))
}

/// The keys of open tasks.
pub open spec fn keys_of(ts: Seq<OpenTaskView>) -> Seq<(u8, u8)> {
    ts.map_values(|t: OpenTaskView| key_of(t))
}

/// Key `a` sorts strictly before key `b`.
pub open spec fn key_before(a: (u8, u8), b: (u8, u8)) -> bool {
    a.0 < b.0 || (a.0 == b.0 && a.1 < b.1)
}

/// Position `i` holds the first element after a stable ascending sort of
/// `keys`: no key sorts before it, and every earlier key sorts after it.
pub open spec fn is_first_best(keys: Seq<(u8, u8)>, i: int) -> bool {
    &&& 0 <= i < keys.len()
    &&& forall|j: int| 0 <= j < keys.len() ==> !key_before(#[trigger] keys[j], keys[i])
    &&& forall|j: int| 0 <= j < i ==> key_before(keys[i], #[trigger] keys[j])
}

/// The rank of a lower-cased priority.
pub fn priority_rank(lowered: &str) -> (r: u8)
    ensures
        r == priority_rank_of(lowered@),
{
    let p = chars_of(lowered);
    if same_chars(p.as_slice(), chars_of("high").as_slice()) {
        0
    } else if same_chars(p.as_slice(), chars_of("medium").as_slice()) {
        1
    } else if same_chars(p.as_slice(), chars_of("low").as_slice()) {
        2
    } else {
        3
    }
}

/// The rank of a status.
pub fn status_rank(s: Status) -> (r: u8)
    ensures
        r == status_rank_of(s),
{
    match s {
        Status::InProgress => 0,
        Status::NotStarted => 1,
        Status::Blocked => 2,
        Status::Completed => 3,
    }
}

/// The sort keys of open tasks; a priority is ranked case-insensitively.
pub fn rank_keys(tasks: &Vec<OpenTask>) -> (r: Vec<(u8, u8)>)
    ensures
        r@ == keys_of(open_views(tasks@)),
{
    let mut r: Vec<(u8, u8)> = Vec::new();
    for i in 0..tasks.len()
        invariant
            r@ == keys_of(open_views(tasks@)).take(i as int),
    {
        let lowered = lowercase(tasks[i].priority.as_str());
        let k = (priority_rank(lowered.as_str()), status_rank(tasks[i].status));
        r.push(k);
        assert(r@ =~= keys_of(open_views(tasks@)).take(i + 1));
    }
    assert(r@ =~= keys_of(open_views(tasks@)));
    r
}

/// The position of the first element after a stable ascending sort of `keys`;
/// none for no keys.
pub fn select_first_best(keys: &Vec<(u8, u8)>) -> (r: Option<usize>)
    ensures
        r is None <==> keys@.len() == 0,
        r matches Some(i) ==> is_first_best(keys@, i as int),
{
    if keys.len() == 0 {
        return None;
    }
    let mut best: usize = 0;
    for i in 1..keys.len()
        invariant
            best < i <= keys@.len(),
            forall|j: int| 0 <= j < i ==> !key_before(#[trigger] keys@[j], keys@[best as int]),
            forall|j: int| 0 <= j < best ==> key_before(keys@[best as int], #[trigger] keys@[j]),
    {
        let a = keys[i];
        let b = keys[best];
        if a.0 < b.0 || (a.0 == b.0 && a.1 < b.1) {
            best = i;
        }
    }
    Some(best)
}

/// The action phrase for a task: how to go on with it.
pub open spec fn action_text(s: Status, name: Seq<char>) -> Seq<char> {
    match s {
        Status::InProgress => "Continue working on: "@ + name,
        Status::NotStarted => "Start: "@ + name,
        Status::Blocked => "Unblock: "@ + name,
        Status::Completed => "Work on: "@ + name,
    }
}

/// Hundredths of a percent as a whole percent, halves rounded up.
pub open spec fn whole_percent(h: u32) -> nat {
    (h as nat + 50) / 100
}

/// Why a task is recommended.
pub open spec fn reason_text(t: OpenTaskView) -> Seq<char> {
    "Priority: "@ + t.priority + " | Status: "@ + t.status.label_spec() + " | Progress: "@ + decimal(
        whole_percent(t.progress),
    ) + "%"@
}

/// The recommended next task.
pub struct Recommendation {
    /// Position of the task among those considered.
    pub index: usize,
    pub action: String,
    pub priority: String,
    pub feature_path: String,
    pub phase_name: String,
    pub feature_name: String,
    pub task_name: String,
    pub estimated_effort: String,
    pub reason: String,
}

/// `rec` describes the open task `t`.
pub open spec fn describes(rec: &Recommendation, t: OpenTaskView) -> bool {
    &&& rec.action@ == action_text(t.status, t.task_name)
    &&& rec.priority@ == t.priority
    &&& rec.feature_path@ == t.feature_path
    &&& rec.phase_name@ == t.phase_name
    &&& rec.feature_name@ == t.feature_name
    &&& rec.task_name@ == t.task_name
    &&& rec.estimated_effort@ == t.estimated_time
    &&& rec.reason@ == reason_text(t)
}

/// What to do next.
pub enum NextStep {
    /// No open task is left: all work is complete.
    AllComplete,
    /// Work on the recommended task.
    Work(Recommendation),
}

/// The action phrase for a task.
fn action_for(s: Status, name: &String) -> (r: String)
    ensures
        r@ == action_text(s, name@),
{
    let mut out: Vec<char> = Vec::new();
    match s {
        Status::InProgress => push_str(&mut out, "Continue working on: "),
        Status::NotStarted => push_str(&mut out, "Start: "),
        Status::Blocked => push_str(&mut out, "Unblock: "),
        Status::Completed => push_str(&mut out, "Work on: "),
    }
    push_str(&mut out, name.as_str());
    string_of(out.as_slice())
}

/// Why a task is recommended.
fn reason_for(t: &OpenTask) -> (r: String)
    ensures
        r@ == reason_text(t@),
{
    let mut out: Vec<char> = Vec::new();
    push_str(&mut out, "Priority: ");
    push_str(&mut out, t.priority.as_str());
    push_str(&mut out, " | Status: ");
    let label = t.status.label();
    push_str(&mut out, label.as_str());
    push_str(&mut out, " | Progress: ");
    push_decimal(&mut out, (t.progress as u128 + 50) / 100);
    push_str(&mut out, "%");
    string_of(out.as_slice())
}

/// Picks the next task: the first one after a stable sort by priority rank,
/// then status rank. With no open task, all work is complete; that is the
/// terminal outcome, not an error.
pub fn analyze_and_recommend(tasks: &Vec<OpenTask>) -> (r: NextStep)
    ensures
        r is AllComplete <==> tasks@.len() == 0,
        r matches NextStep::Work(rec) ==> is_first_best(keys_of(open_views(tasks@)), rec.index as int)
            && describes(&rec, tasks@[rec.index as int]@),
{
    let keys = rank_keys(tasks);
    match select_first_best(&keys) {
        None => NextStep::AllComplete,
        Some(i) => {
            let t = &tasks[i];
            let rec = Recommendation {
                index: i,
                action: action_for(t.status, &t.task_name),
                priority: t.priority.clone(),
                feature_path: t.feature_path.clone(),
                phase_name: t.phase_name.clone(),
                feature_name: t.feature_name.clone(),
                task_name: t.task_name.clone(),
                estimated_effort: t.estimated_time.clone(),
                reason: reason_for(t),
            };
            NextStep::Work(rec)
        },
    }
}

/// A high-priority task in progress is always chosen over a low-priority task
/// not yet started, wherever each stands among the open tasks.
pub proof fn law_high_in_progress_beats_low_not_started(
    tasks: Seq<OpenTaskView>,
    hi: int,
    lo: int,
    chosen: int,
)
    requires
        0 <= hi < tasks.len(),
        0 <= lo < tasks.len(),
        lower_of(tasks[hi].priority) == "high"@,
        tasks[hi].status == Status::InProgress,
        lower_of(tasks[lo].priority) == "low"@,
        tasks[lo].status == Status::NotStarted,
        is_first_best(keys_of(tasks), chosen),
    ensures
        chosen != lo,
{
    let keys = keys_of(tasks);
    assert(keys[hi] == key_of(tasks[hi]));
    assert(keys[lo] == key_of(tasks[lo]));
    assert(!key_before(keys[hi], keys[chosen]));
    if chosen == lo {
        reveal_strlit("high");
        reveal_strlit("medium");
        reveal_strlit("low");
        assert(key_before(keys[hi], keys[lo]));
    }
}

/// Counts of open tasks, shown beside a recommendation.
pub struct OpenSummary {
    pub total: usize,
    pub high_priority: usize,
    pub in_progress: usize,
    pub not_started: usize,
    pub blocked: usize,
}

/// How many of `ts` have a priority that lower-cases to `high`.
pub open spec fn count_high(ts: Seq<OpenTaskView>) -> nat
    decreases ts.len(),
{
    if ts.len() == 0 {
        0
    } else {
        count_high(ts.drop_last()) + if lower_of(ts.last().priority) == "high"@ {
            1nat
        } else {
            0nat
        }
    }
}

/// How many of `ts` have status `s`.
pub open spec fn count_open(ts: Seq<OpenTaskView>, s: Status) -> nat
    decreases ts.len(),
{
    if ts.len() == 0 {
        0
    } else {
        count_open(ts.drop_last(), s) + if ts.last().status == s {
            1nat
        } else {
            0nat
        }
    }
}

/// Counts of the open tasks: all of them, those of high priority, and those
/// in progress, not started and blocked.
pub fn summarize_open_tasks(tasks: &Vec<OpenTask>) -> (r: OpenSummary)
    ensures
        r.total == tasks@.len(),
        r.high_priority == count_high(open_views(tasks@)),
        r.in_progress == count_open(open_views(tasks@), Status::InProgress),
        r.not_started == count_open(open_views(tasks@), Status::NotStarted),
        r.blocked == count_open(open_views(tasks@), Status::Blocked),
{
    let ghost ts = open_views(tasks@);
    let mut r = OpenSummary { total: 0, high_priority: 0, in_progress: 0, not_started: 0, blocked: 0 };
    assert(ts.take(0) =~= Seq::<OpenTaskView>::empty());
    for i in 0..tasks.len()
        invariant
            ts == open_views(tasks@),
            r.total == i,
            r.high_priority == count_high(ts.take(i as int)),
            r.in_progress == count_open(ts.take(i as int), Status::InProgress),
            r.not_started == count_open(ts.take(i as int), Status::NotStarted),
            r.blocked == count_open(ts.take(i as int), Status::Blocked),
            r.high_priority <= i,
            r.in_progress + r.not_started + r.blocked <= i,
    {
        assert(ts.take(i + 1).drop_last() =~= ts.take(i as int));
        assert(ts.take(i + 1).last() == tasks@[i as int]@);
        let t = &tasks[i];
        let lowered = lowercase(t.priority.as_str());
        let l = chars_of(lowered.as_str());
        if same_chars(l.as_slice(), chars_of("high").as_slice()) {
            r.high_priority = r.high_priority + 1;
        }
        match t.status {
            Status::InProgress => r.in_progress = r.in_progress + 1,
            Status::NotStarted => r.not_started = r.not_started + 1,
            Status::Blocked => r.blocked = r.blocked + 1,
            Status::Completed => {},
        }
        r.total = r.total + 1;
    }
    assert(ts.take(tasks@.len() as int) =~= ts);
    r
}

} // verus!
