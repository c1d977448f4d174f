//! Progress roll-ups: task statistics per feature, completion percentages,
//! status categories, and unweighted means over features and phases.
//!
//! A percentage is held in hundredths of a percent: `FULL_PERCENT` is 100%.
use vstd::prelude::*;
use crate::task::{Status, TaskRecord, TaskView, parse_tasks, task_views, tasks_of};

verus! {

/// 100%, in hundredths of a percent.
pub const FULL_PERCENT: u32 = 10000;

/// Counts of tasks (or of features) by status.
#[derive(Clone, Copy, Debug, PartialEq, Eq, Structural)]
pub struct TaskStats {
    pub total: usize,
    pub completed: usize,
    pub in_progress: usize,
    pub not_started: usize,
    pub blocked: usize,
}

impl TaskStats {
    /// The total is the sum of the four counts.
    pub open spec fn wf(&self) -> bool {
        self.total == self.completed + self.in_progress + self.not_started + self.blocked
    }
}

/// How many of `ts` have status `s`.
pub open spec fn count_status(ts: Seq<Status>, s: Status) -> nat
    decreases ts.len(),
{
    if ts.len() == 0 {
        0
    } else {
        count_status(ts.drop_last(), s) + if ts.last() == s {
            1nat
        } else {
            0nat
        }
    }
}

/// The statuses of a sequence of tasks.
pub open spec fn task_statuses(ts: Seq<TaskView>) -> Seq<Status> {
    ts.map_values(|t: TaskView| t.status)
}

/// `stats` counts the statuses `ts`.
pub open spec fn counts(stats: TaskStats, ts: Seq<Status>) -> bool {
    &&& stats.total == ts.len()
    &&& stats.completed == count_status(ts, Status::Completed)
    &&& stats.in_progress == count_status(ts, Status::InProgress)
    &&& stats.not_started == count_status(ts, Status::NotStarted)
    &&& stats.blocked == count_status(ts, Status::Blocked)
}

proof fn lemma_counts_sum(ts: Seq<Status>)
    ensures
        ts.len() == count_status(ts, Status::Completed) + count_status(ts, Status::InProgress)
            + count_status(ts, Status::NotStarted) + count_status(ts, Status::Blocked),
    decreases ts.len(),
{
    if ts.len() > 0 {
        lemma_counts_sum(ts.drop_last());
    }
}

/// Counts statuses.
pub fn tally(statuses: &Vec<Status>) -> (r: TaskStats)
    ensures
        counts(r, statuses@),
        r.wf(),
{
    let mut r = TaskStats { total: 0, completed: 0, in_progress: 0, not_started: 0, blocked: 0 };
    let n = statuses.len();
    assert(statuses@.take(0) =~= Seq::<Status>::empty());
    for i in 0..n
        invariant
            n == statuses@.len(),
            counts(r, statuses@.take(i as int)),
            r.total == i,
    {
        proof {
            lemma_counts_sum(statuses@.take(i as int));
        }
        assert(statuses@.take(i + 1).drop_last() =~= statuses@.take(i as int));
        match statuses[i] {
            Status::Completed => r.completed = r.completed + 1,
            Status::InProgress => r.in_progress = r.in_progress + 1,
            Status::NotStarted => r.not_started = r.not_started + 1,
            Status::Blocked => r.blocked = r.blocked + 1,
        }
        r.total = r.total + 1;
    }
    assert(statuses@.take(n as int) =~= statuses@);
    proof {
        lemma_counts_sum(statuses@);
    }
    r
}

/// The statuses of task records.
fn statuses_of(tasks: &Vec<TaskRecord>) -> (r: Vec<Status>)
    ensures
        r@ == task_statuses(task_views(tasks@)),
{
    let mut r: Vec<Status> = Vec::new();
    for i in 0..tasks.len()
        invariant
            r@ == task_statuses(task_views(tasks@)).take(i as int),
    {
        r.push(tasks[i].status);
        assert(r@ =~= task_statuses(task_views(tasks@)).take(i + 1));
    }
    assert(r@ =~= task_statuses(task_views(tasks@)));
    r
}

/// Task statistics of a task-list document.
pub fn count_tasks(content: &str) -> (r: TaskStats)
    ensures
        counts(r, task_statuses(tasks_of(content@))),
        r.wf(),
{
    let tasks = parse_tasks(content);
    let statuses = statuses_of(&tasks);
    tally(&statuses)
}

/// `completed` out of `total`, in hundredths of a percent, rounded down; 0
/// when there is nothing to complete.
pub open spec fn percent_of(completed: nat, total: nat) -> nat {
    if total == 0 {
        0
    } else {
        (FULL_PERCENT as nat * completed) / total
    }
}

/// The status category, by priority: complete at 100%, else in progress if
/// anything is in progress, else blocked if anything is blocked, else not
/// started.
pub open spec fn status_for(percent: nat, in_progress: nat, blocked: nat) -> Status {
    if percent == FULL_PERCENT {
        Status::Completed
    } else if in_progress > 0 {
        Status::InProgress
    } else if blocked > 0 {
        Status::Blocked
    } else {
        Status::NotStarted
    }
}

/// Completion percentage of a feature's tasks.
pub fn progress_percent(stats: &TaskStats) -> (r: u32)
    requires
        stats.wf(),
    ensures
        r == percent_of(stats.completed as nat, stats.total as nat),
        r <= FULL_PERCENT,
        stats.total == 0 ==> r == 0,
        r == FULL_PERCENT <==> (stats.total > 0 && stats.completed == stats.total),
{
    if stats.total == 0 {
        return 0;
    }
    let c = stats.completed as u128;
    let t = stats.total as u128;
    assert(c <= t);
    assert(c * 10000 <= t * 10000) by (nonlinear_arith)
        requires
            c <= t,
    ;
    let q = (c * 10000) / t;
    proof {
        lemma_percent_bounds(c as nat, t as nat);
    }
    q as u32
}

proof fn lemma_percent_bounds(c: nat, t: nat)
    requires
        c <= t,
        t > 0,
    ensures
        (c * 10000) / t <= 10000,
        (c * 10000) / t == 10000 <==> c == t,
{
    assert((c * 10000) / t <= 10000) by (nonlinear_arith)
        requires
            c <= t,
            t > 0,
    ;
    if c < t {
        assert((c * 10000) / t < 10000) by (nonlinear_arith)
            requires
                c < t,
                t > 0,
        ;
    } else {
        assert((t * 10000) / t == 10000) by (nonlinear_arith)
            requires
                t > 0,
        ;
    }
}

/// The status of a feature with the given task statistics.
pub fn derive_status(percent: u32, stats: &TaskStats) -> (r: Status)
    ensures
        r == status_for(percent as nat, stats.in_progress as nat, stats.blocked as nat),
{
    if percent == FULL_PERCENT {
        Status::Completed
    } else if stats.in_progress > 0 {
        Status::InProgress
    } else if stats.blocked > 0 {
        Status::Blocked
    } else {
        Status::NotStarted
    }
}

/// Percentage and status of a feature with the given task statistics.
pub fn compute_feature_progress(stats: &TaskStats) -> (r: (u32, Status))
    requires
        stats.wf(),
    ensures
        r.0 == percent_of(stats.completed as nat, stats.total as nat),
        r.0 <= FULL_PERCENT,
        r.1 == status_for(r.0 as nat, stats.in_progress as nat, stats.blocked as nat),
{
    let p = progress_percent(stats);
    (p, derive_status(p, stats))
}

/// Progress of one feature.
pub struct FeatureProgress {
    pub feature_name: String,
    pub phase_name: String,
    pub priority: String,
    /// Hundredths of a percent.
    pub progress: u32,
    pub status: Status,
    pub tasks: TaskStats,
}

/// What a feature's progress record holds.
pub ghost struct FeatureView {
    pub feature_name: Seq<char>,
    pub phase_name: Seq<char>,
    pub priority: Seq<char>,
    pub progress: u32,
    pub status: Status,
    pub tasks: TaskStats,
}

impl View for FeatureProgress {
    type V = FeatureView;

    open spec fn view(&self) -> FeatureView {
        FeatureView {
            feature_name: self.feature_name@,
            phase_name: self.phase_name@,
            priority: self.priority@,
            progress: self.progress,
            status: self.status,
            tasks: self.tasks,
        }
    }
}

impl FeatureView {
    /// Percentage and status are those of the task statistics.
    pub open spec fn wf(&self) -> bool {
        &&& self.tasks.wf()
        &&& self.progress == percent_of(self.tasks.completed as nat, self.tasks.total as nat)
        &&& self.status == status_for(
            self.progress as nat,
            self.tasks.in_progress as nat,
            self.tasks.blocked as nat,
        )
    }
}

impl FeatureProgress {
    /// The progress record of a feature with the given task statistics.
    pub fn new(feature_name: String, phase_name: String, priority: String, tasks: TaskStats) -> (r:
        FeatureProgress)
        requires
            tasks.wf(),
        ensures
            r@.wf(),
            r.feature_name@ == feature_name@,
            r.phase_name@ == phase_name@,
            r.priority@ == priority@,
            r.tasks == tasks,
    {
        let (progress, status) = compute_feature_progress(&tasks);
        FeatureProgress { feature_name, phase_name, priority, progress, status, tasks }
    }

    /// A copy of this record.
    pub fn duplicate(&self) -> (r: FeatureProgress)
        ensures
            r@ == self@,
    {
        FeatureProgress {
            feature_name: self.feature_name.clone(),
            phase_name: self.phase_name.clone(),
            priority: self.priority.clone(),
            progress: self.progress,
            status: self.status,
            tasks: self.tasks,
        }
    }
}

/// Percentages are at most 100%.
pub proof fn lemma_feature_percent_bounded(f: FeatureView)
    requires
        f.wf(),
    ensures
        f.progress <= FULL_PERCENT,
        f.tasks.total == 0 ==> f.progress == 0,
{
    if f.tasks.total > 0 {
        lemma_percent_bounds(f.tasks.completed as nat, f.tasks.total as nat);
    }
}

/// The views of feature records.
pub open spec fn feature_views(fs: Seq<FeatureProgress>) -> Seq<FeatureView> {
    fs.map_values(|f: FeatureProgress| f@)
}

/// The percentages of features.
pub open spec fn feature_percents(fs: Seq<FeatureView>) -> Seq<nat> {
    fs.map_values(|f: FeatureView| f.progress as nat)
}

/// The statuses of features.
pub open spec fn feature_statuses(fs: Seq<FeatureView>) -> Seq<Status> {
    fs.map_values(|f: FeatureView| f.status)
}

/// The sum of `s`.
pub open spec fn sum(s: Seq<nat>) -> nat
    decreases s.len(),
{
    if s.len() == 0 {
        0
    } else {
        sum(s.drop_last()) + s.last()
    }
}

/// The unweighted arithmetic mean of `s`, rounded down; 0 for no values.
pub open spec fn mean(s: Seq<nat>) -> nat {
    if s.len() == 0 {
        0
    } else {
        sum(s) / s.len()
    }
}

/// Every value of `s` is a percentage.
pub open spec fn all_percents(s: Seq<nat>) -> bool {
    forall|i: int| 0 <= i < s.len() ==> s[i] <= FULL_PERCENT
}

proof fn lemma_sum_bounded(s: Seq<nat>)
    requires
        all_percents(s),
    ensures
        sum(s) <= FULL_PERCENT * s.len(),
    decreases s.len(),
{
    if s.len() > 0 {
        lemma_sum_bounded(s.drop_last());
    }
}

/// The mean of percentages is a percentage.
pub proof fn lemma_mean_bounded(s: Seq<nat>)
    requires
        all_percents(s),
    ensures
        mean(s) <= FULL_PERCENT,
{
    if s.len() > 0 {
        lemma_sum_bounded(s);
        let n = s.len();
        let t = sum(s);
        assert(t / n <= 10000) by (nonlinear_arith)
            requires
                t <= 10000 * n,
                n > 0,
        ;
    }
}

/// The floor mean of a sequence of percentages.
fn mean_of(values: &Vec<u32>) -> (r: u32)
    requires
        forall|i: int| 0 <= i < values@.len() ==> values@[i] <= FULL_PERCENT,
    ensures
        r == mean(values@.map_values(|v: u32| v as nat)),
        r <= FULL_PERCENT,
{
    let ghost s = values@.map_values(|v: u32| v as nat);
    let n = values.len();
    if n == 0 {
        return 0;
    }
    let mut acc: u128 = 0;
    assert(s.take(0) =~= Seq::<nat>::empty());
    for i in 0..n
        invariant
            n == values@.len(),
            s == values@.map_values(|v: u32| v as nat),
            forall|k: int| 0 <= k < values@.len() ==> values@[k] <= FULL_PERCENT,
            acc == sum(s.take(i as int)),
            acc <= 10000 * i,
    {
        assert(s.take(i + 1).drop_last() =~= s.take(i as int));
        acc = acc + values[i] as u128;
    }
    assert(s.take(n as int) =~= s);
    proof {
        assert(all_percents(s));
        lemma_mean_bounded(s);
    }
    (acc / (n as u128)) as u32
}

/// The percentages of feature records.
fn percents_of(features: &Vec<FeatureProgress>) -> (r: Vec<u32>)
    ensures
        r@.map_values(|v: u32| v as nat) == feature_percents(feature_views(features@)),
        forall|i: int| 0 <= i < r@.len() ==> r@[i] == features@[i].progress,
{
    let mut r: Vec<u32> = Vec::new();
    for i in 0..features.len()
        invariant
            r@.len() == i,
            forall|k: int| 0 <= k < i ==> r@[k] == features@[k].progress,
    {
        r.push(features[i].progress);
    }
    assert(r@.map_values(|v: u32| v as nat) =~= feature_percents(feature_views(features@)));
    r
}

/// Every feature record is well formed.
pub open spec fn all_wf(fs: Seq<FeatureView>) -> bool {
    forall|i: int| 0 <= i < fs.len() ==> (#[trigger] fs[i]).wf()
}

proof fn lemma_feature_percents(fs: Seq<FeatureView>)
    requires
        all_wf(fs),
    ensures
        all_percents(feature_percents(fs)),
{
    assert forall|i: int| 0 <= i < fs.len() implies feature_percents(fs)[i] <= FULL_PERCENT by {
        lemma_feature_percent_bounded(fs[i]);
    }
}

/// Progress of a phase: the unweighted mean of its features' percentages (0
/// for no features), whatever each feature's number of tasks.
pub fn compute_phase_progress(features: &Vec<FeatureProgress>) -> (r: u32)
    requires
        all_wf(feature_views(features@)),
    ensures
        r == mean(feature_percents(feature_views(features@))),
        r <= FULL_PERCENT,
{
    let values = percents_of(features);
    proof {
        lemma_feature_percents(feature_views(features@));
        assert forall|i: int| 0 <= i < values@.len() implies values@[i] <= FULL_PERCENT by {
            assert(feature_percents(feature_views(features@))[i] == values@[i] as nat);
        }
    }
    mean_of(&values)
}

/// Progress of the features of one phase.
pub struct PhaseProgress {
    pub phase_name: String,
    /// Hundredths of a percent.
    pub progress: u32,
    pub features: Vec<FeatureProgress>,
}

/// What a phase's progress record holds.
pub ghost struct PhaseView {
    pub phase_name: Seq<char>,
    pub progress: u32,
    pub features: Seq<FeatureView>,
}

impl View for PhaseProgress {
    type V = PhaseView;

    open spec fn view(&self) -> PhaseView {
        PhaseView {
            phase_name: self.phase_name@,
            progress: self.progress,
            features: feature_views(self.features@),
        }
    }
}

impl PhaseView {
    /// The percentage is the mean over the features, which are well formed.
    pub open spec fn wf(&self) -> bool {
        &&& all_wf(self.features)
        &&& self.progress == mean(feature_percents(self.features))
    }
}

/// The phase status: the feature-status rule applied to counts of features
/// by status.
pub open spec fn phase_status_of(p: PhaseView) -> Status {
    status_for(
        p.progress as nat,
        count_status(feature_statuses(p.features), Status::InProgress),
        count_status(feature_statuses(p.features), Status::Blocked),
    )
}

impl PhaseProgress {
    /// Counts of this phase's features by status.
    pub fn feature_counts(&self) -> (r: TaskStats)
        ensures
            counts(r, feature_statuses(self@.features)),
            r.wf(),
    {
        let mut statuses: Vec<Status> = Vec::new();
        for i in 0..self.features.len()
            invariant
                statuses@ == feature_statuses(self@.features).take(i as int),
        {
            statuses.push(self.features[i].status);
            assert(statuses@ =~= feature_statuses(self@.features).take(i + 1));
        }
        assert(statuses@ =~= feature_statuses(self@.features));
        tally(&statuses)
    }

    /// The status of this phase.
    pub fn status(&self) -> (r: Status)
        ensures
            r == phase_status_of(self@),
    {
        let c = self.feature_counts();
        derive_status(self.progress, &c)
    }
}

/// The phase records of features: each maximal run of consecutive features
/// with the same phase name is one phase.
pub open spec fn phase_runs(fs: Seq<FeatureView>) -> Seq<Seq<FeatureView>>
    decreases fs.len(),
{
    if fs.len() == 0 {
        Seq::empty()
    } else {
        let before = phase_runs(fs.drop_last());
        if before.len() > 0 && before.last().last().phase_name == fs.last().phase_name {
            before.update(before.len() - 1, before.last().push(fs.last()))
        } else {
            before.push(seq![fs.last()])
        }
    }
}

proof fn lemma_runs_nonempty(fs: Seq<FeatureView>)
    ensures
        forall|k: int| 0 <= k < phase_runs(fs).len() ==> #[trigger] phase_runs(fs)[k].len() > 0,
        forall|k: int|
            0 <= k < phase_runs(fs).len() ==> all_wf(fs) ==> all_wf(#[trigger] phase_runs(fs)[k]),
    decreases fs.len(),
{
    if fs.len() > 0 {
        lemma_runs_nonempty(fs.drop_last());
        let before = phase_runs(fs.drop_last());
        if all_wf(fs) {
            assert(all_wf(fs.drop_last()));
        }
        assert forall|k: int| 0 <= k < phase_runs(fs).len() && all_wf(fs) implies all_wf(
            #[trigger] phase_runs(fs)[k],
        ) by {
            assert(fs[fs.len() - 1].wf());
            if k < before.len() {
                assert(all_wf(before[k]));
            }
        }
    }
}

/// The phase record of one run of features.
pub open spec fn phase_of_run(run: Seq<FeatureView>) -> PhaseView {
    PhaseView {
        phase_name: run[0].phase_name,
        progress: mean(feature_percents(run)) as u32,
        features: run,
    }
}

/// Features grouped into phases.
pub open spec fn phases_of(fs: Seq<FeatureView>) -> Seq<PhaseView> {
    phase_runs(fs).map_values(|run: Seq<FeatureView>| phase_of_run(run))
}

/// The views of phase records.
pub open spec fn phase_views(ps: Seq<PhaseProgress>) -> Seq<PhaseView> {
    ps.map_values(|p: PhaseProgress| p@)
}

/// The runs, held in executable form.
fn runs_of(features: &Vec<FeatureProgress>) -> (r: Vec<Vec<FeatureProgress>>)
    ensures
        r@.map_values(|run: Vec<FeatureProgress>| feature_views(run@)) == phase_runs(
            feature_views(features@),
        ),
{
    let ghost fs = feature_views(features@);
    let mut runs: Vec<Vec<FeatureProgress>> = Vec::new();
    assert(fs.take(0) =~= Seq::<FeatureView>::empty());
    assert(runs@.map_values(|run: Vec<FeatureProgress>| feature_views(run@)) =~= phase_runs(
        fs.take(0),
    ));
    for i in 0..features.len()
        invariant
            fs == feature_views(features@),
            runs@.map_values(|run: Vec<FeatureProgress>| feature_views(run@)) == phase_runs(
                fs.take(i as int),
            ),
            forall|k: int| 0 <= k < runs@.len() ==> #[trigger] runs@[k]@.len() > 0,
    {
        let ghost before = phase_runs(fs.take(i as int));
        assert(fs.take(i + 1).drop_last() =~= fs.take(i as int));
        assert(fs.take(i + 1).last() == features@[i as int]@);
        let f = features[i].duplicate();
        let n = runs.len();
        let joins = n > 0 && runs[n - 1].len() > 0 && runs[n - 1][runs[n - 1].len() - 1].phase_name
            == f.phase_name;
        if joins {
            let k = runs[n - 1].len();
            assert(before.last().last() == runs@[n - 1]@[k - 1]@);
            let ghost old_runs = runs@;
            let ghost fv = f@;
            let mut last = runs.pop().unwrap();
            let ghost old_last = last@;
            last.push(f);
            assert(feature_views(last@) =~= feature_views(old_last).push(fv));
            runs.push(last);
            assert(runs@ =~= old_runs.update(n - 1, last));
            assert(fv == fs.take(i + 1).last());
            assert(runs@.map_values(|run: Vec<FeatureProgress>| feature_views(run@)) =~= phase_runs(
                fs.take(i + 1),
            ));
        } else {
            let ghost fv = f@;
            let mut run: Vec<FeatureProgress> = Vec::new();
            run.push(f);
            runs.push(run);
            assert(feature_views(run@) =~= seq![fv]);
            assert(runs@.map_values(|run: Vec<FeatureProgress>| feature_views(run@)) =~= phase_runs(
                fs.take(i + 1),
            ));
        }
    }
    assert(fs.take(features@.len() as int) =~= fs);
    runs
}

/// Groups features into phases: each maximal run of consecutive features with
/// the same phase name becomes one phase, named after it, whose percentage is
/// the mean over the run.
pub fn group_into_phases(features: &Vec<FeatureProgress>) -> (r: Vec<PhaseProgress>)
    requires
        all_wf(feature_views(features@)),
    ensures
        phase_views(r@) == phases_of(feature_views(features@)),
        forall|k: int| 0 <= k < r@.len() ==> (#[trigger] r@[k]@).wf(),
{
    let ghost fs = feature_views(features@);
    let runs = runs_of(features);
    let ghost rs = runs@.map_values(|run: Vec<FeatureProgress>| feature_views(run@));
    proof {
        lemma_runs_nonempty(fs);
    }
    let mut out: Vec<PhaseProgress> = Vec::new();
    let mut rest = runs;
    let mut taken: Vec<Vec<FeatureProgress>> = Vec::new();
    // Runs are taken from the back, then placed in order.
    while rest.len() > 0
        invariant
            rs == phase_runs(fs),
            forall|k: int| 0 <= k < rs.len() ==> #[trigger] rs[k].len() > 0 && all_wf(rs[k]),
            rest@.len() + taken@.len() == rs.len(),
            forall|k: int| 0 <= k < rest@.len() ==> feature_views(#[trigger] rest@[k]@) == rs[k],
            forall|k: int|
                0 <= k < taken@.len() ==> feature_views(#[trigger] taken@[k]@) == rs[rs.len() - 1
                    - k],
        decreases rest@.len(),
    {
        let run = rest.pop().unwrap();
        taken.push(run);
    }
    let m = taken.len();
    assert(phases_of(fs).take(0) =~= Seq::<PhaseView>::empty());
    while taken.len() > 0
        invariant
            rs == phase_runs(fs),
            forall|k: int| 0 <= k < rs.len() ==> #[trigger] rs[k].len() > 0 && all_wf(rs[k]),
            m == rs.len(),
            out@.len() + taken@.len() == m,
            forall|k: int|
                0 <= k < taken@.len() ==> feature_views(#[trigger] taken@[k]@) == rs[m - 1 - k],
            phase_views(out@) == phases_of(fs).take(out@.len() as int),
            forall|k: int| 0 <= k < out@.len() ==> (#[trigger] out@[k]@).wf(),
        decreases taken@.len(),
    {
        let run = taken.pop().unwrap();
        let j = out.len();
        assert(feature_views(run@) == rs[j as int]);
        let progress = compute_phase_progress(&run);
        let name = run[0].phase_name.clone();
        let p = PhaseProgress { phase_name: name, progress, features: run };
        assert(p@ == phase_of_run(rs[j as int]));
        out.push(p);
        assert(phase_views(out@) =~= phases_of(fs).take(out@.len() as int));
    }
    assert(phases_of(fs).take(m as int) =~= phases_of(fs));
    out
}

/// A well-formed phase's percentage is at most 100%.
pub proof fn lemma_phase_percent_bounded(p: PhaseView)
    requires
        p.wf(),
    ensures
        p.progress <= FULL_PERCENT,
{
    lemma_feature_percents(p.features);
    lemma_mean_bounded(feature_percents(p.features));
}

/// The percentages of phases.
pub open spec fn phase_percents(ps: Seq<PhaseView>) -> Seq<nat> {
    ps.map_values(|p: PhaseView| p.progress as nat)
}

/// Overall progress: the unweighted mean of the phases' percentages (0 for no
/// phases).
pub fn compute_overall_progress(phases: &Vec<PhaseProgress>) -> (r: u32)
    requires
        forall|k: int| 0 <= k < phases@.len() ==> (#[trigger] phases@[k]@).wf(),
    ensures
        r == mean(phase_percents(phase_views(phases@))),
        r <= FULL_PERCENT,
{
    let mut values: Vec<u32> = Vec::new();
    for i in 0..phases.len()
        invariant
            values@.len() == i,
            forall|k: int| 0 <= k < i ==> values@[k] == phases@[k].progress,
    {
        values.push(phases[i].progress);
    }
    proof {
        assert forall|k: int| 0 <= k < values@.len() implies values@[k] <= FULL_PERCENT by {
            let p = phases@[k]@;
            assert(p.wf());
            lemma_feature_percents(p.features);
            lemma_mean_bounded(feature_percents(p.features));
        }
    }
    let r = mean_of(&values);
    assert(values@.map_values(|v: u32| v as nat) =~= phase_percents(phase_views(phases@)));
    r
}


/// A phase's percentage depends on its features' percentages alone: features
/// with the same percentages give the same phase percentage, whatever the
/// number of tasks behind each.
pub proof fn law_phase_progress_unweighted(a: Seq<FeatureView>, b: Seq<FeatureView>)
    requires
        a.len() == b.len(),
        forall|i: int| 0 <= i < a.len() ==> a[i].progress == b[i].progress,
    ensures
        mean(feature_percents(a)) == mean(feature_percents(b)),
{
    assert(feature_percents(a) =~= feature_percents(b));
}

/// All features of the given phases, in order.
pub open spec fn all_features(ps: Seq<PhaseView>) -> Seq<FeatureView>
    decreases ps.len(),
{
    if ps.len() == 0 {
        Seq::empty()
    } else {
        all_features(ps.drop_last()) + ps.last().features
    }
}

/// The runs of features, put back together, are the features: grouping into
/// phases neither drops nor repeats a feature.
pub proof fn lemma_phases_partition(fs: Seq<FeatureView>)
    ensures
        all_features(phases_of(fs)) == fs,
    decreases fs.len(),
{
    if fs.len() > 0 {
        let init = fs.drop_last();
        lemma_phases_partition(init);
        lemma_runs_nonempty(init);
        let before = phase_runs(init);
        let after = phase_runs(fs);
        let pb = phases_of(init);
        let pa = phases_of(fs);
        if before.len() > 0 && before.last().last().phase_name == fs.last().phase_name {
            assert(pa.drop_last() =~= pb.drop_last());
            assert(pa.last().features == pb.last().features.push(fs.last()));
            assert(all_features(pb) == all_features(pb.drop_last()) + pb.last().features);
            assert(all_features(pa.drop_last()) == all_features(pb.drop_last()));
            assert(fs =~= init.push(fs.last()));
            assert(init.push(fs.last()) =~= all_features(pb.drop_last()) + pb.last().features.push(
                fs.last(),
            ));
        } else {
            assert(pa.drop_last() =~= pb);
            assert(pa.last().features =~= seq![fs.last()]);
            assert(fs =~= all_features(pb) + seq![fs.last()]);
        }
    }
}

} // verus!
