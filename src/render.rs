//! The human-readable snapshot: progress bars, percentages with one decimal,
//! and the markdown rendering of a dashboard.
use vstd::prelude::*;
use crate::dashboard::{DashboardView, ProjectDashboard};
use crate::progress::{FULL_PERCENT, FeatureView, PhaseView, TaskStats, all_features, phase_views};
use crate::text::{decimal, digit_char, digit_chars, push_decimal, push_str, string_of};

verus! {

/// The number of cells of a progress bar.
pub const BAR_WIDTH: u32 = 30;

/// The filled cells of a bar for `h` hundredths of a percent, rounded down.
pub open spec fn filled_cells(h: nat) -> nat {
    (h * BAR_WIDTH as nat) / FULL_PERCENT as nat
}

/// `n` copies of `c`.
pub open spec fn repeat(c: char, n: nat) -> Seq<char> {
    Seq::new(n, |i: int| c)
}

/// A progress bar: 30 cells between brackets, the filled ones first.
pub open spec fn bar_text(h: nat) -> Seq<char> {
    seq!['['] + repeat('█', filled_cells(h)) + repeat('░', (BAR_WIDTH - filled_cells(h)) as nat)
        + seq![']']
}

/// Hundredths of a percent as a percentage with one decimal, halves rounded
/// up (`3333` is `33.3`).
pub open spec fn percent_text(h: nat) -> Seq<char> {
    let tenths = (h + 5) / 10;
    decimal(tenths / 10) + seq!['.'] + seq![digit_chars()[(tenths % 10) as int]]
}

fn push_repeat(out: &mut Vec<char>, c: char, n: u32)
    ensures
        final(out)@ == old(out)@ + repeat(c, n as nat),
{
    let ghost start = out@;
    for i in 0..n
        invariant
            out@ == start + repeat(c, i as nat),
    {
        out.push(c);
        assert(out@ =~= start + repeat(c, (i + 1) as nat));
    }
}

fn push_bar(out: &mut Vec<char>, progress: u32)
    requires
        progress <= FULL_PERCENT,
    ensures
        final(out)@ == old(out)@ + bar_text(progress as nat),
{
    let filled = progress * BAR_WIDTH / FULL_PERCENT;
    assert(filled <= 30) by (nonlinear_arith)
        requires
            progress <= 10000,
            filled == progress * 30 / 10000,
    ;
    let ghost start = out@;
    out.push('[');
    push_repeat(out, '█', filled);
    push_repeat(out, '░', BAR_WIDTH - filled);
    out.push(']');
    assert(out@ =~= start + bar_text(progress as nat));
}

/// A fixed-width progress bar for `progress` hundredths of a percent.
pub fn generate_progress_bar(progress: u32) -> (r: String)
    requires
        progress <= FULL_PERCENT,
    ensures
        r@ == bar_text(progress as nat),
{
    let mut out: Vec<char> = Vec::new();
    push_bar(&mut out, progress);
    assert(out@ =~= bar_text(progress as nat));
    string_of(out.as_slice())
}

fn push_percent(out: &mut Vec<char>, h: u32)
    ensures
        final(out)@ == old(out)@ + percent_text(h as nat),
{
    let tenths = (h as u128 + 5) / 10;
    let ghost start = out@;
    push_decimal(out, tenths / 10);
    out.push('.');
    out.push(digit_char(tenths % 10));
    assert(out@ =~= start + percent_text(h as nat));
}

/// Hundredths of a percent as a percentage with one decimal.
pub fn format_percent(h: u32) -> (r: String)
    ensures
        r@ == percent_text(h as nat),
{
    let mut out: Vec<char> = Vec::new();
    push_percent(&mut out, h);
    assert(out@ =~= percent_text(h as nat));
    string_of(out.as_slice())
}

/// Task counts summed over many features.
pub struct TaskTotals {
    pub total: u128,
    pub completed: u128,
    pub in_progress: u128,
    pub not_started: u128,
    pub blocked: u128,
}

/// The sums of the task counts of `fs`.
pub open spec fn sum_total(fs: Seq<FeatureView>) -> nat
    decreases fs.len(),
{
    if fs.len() == 0 {
        0
    } else {
        sum_total(fs.drop_last()) + fs.last().tasks.total as nat
    }
}

/// The sum of the completed counts of `fs`.
pub open spec fn sum_completed(fs: Seq<FeatureView>) -> nat
    decreases fs.len(),
{
    if fs.len() == 0 {
        0
    } else {
        sum_completed(fs.drop_last()) + fs.last().tasks.completed as nat
    }
}

/// The sum of the in-progress counts of `fs`.
pub open spec fn sum_in_progress(fs: Seq<FeatureView>) -> nat
    decreases fs.len(),
{
    if fs.len() == 0 {
        0
    } else {
        sum_in_progress(fs.drop_last()) + fs.last().tasks.in_progress as nat
    }
}

/// The sum of the not-started counts of `fs`.
pub open spec fn sum_not_started(fs: Seq<FeatureView>) -> nat
    decreases fs.len(),
{
    if fs.len() == 0 {
        0
    } else {
        sum_not_started(fs.drop_last()) + fs.last().tasks.not_started as nat
    }
}

/// The sum of the blocked counts of `fs`.
pub open spec fn sum_blocked(fs: Seq<FeatureView>) -> nat
    decreases fs.len(),
{
    if fs.len() == 0 {
        0
    } else {
        sum_blocked(fs.drop_last()) + fs.last().tasks.blocked as nat
    }
}

/// `t` holds the sums of the task counts of `fs`.
pub open spec fn totals_of(t: TaskTotals, fs: Seq<FeatureView>) -> bool {
    &&& t.total == sum_total(fs)
    &&& t.completed == sum_completed(fs)
    &&& t.in_progress == sum_in_progress(fs)
    &&& t.not_started == sum_not_started(fs)
    &&& t.blocked == sum_blocked(fs)
}

/// The task statistics of all features of the given phases.
fn all_stats(phases: &Vec<crate::progress::PhaseProgress>) -> (r: Vec<TaskStats>)
    ensures
        r@ == all_features(phase_views(phases@)).map_values(|f: FeatureView| f.tasks),
{
    let ghost ps = phase_views(phases@);
    let mut r: Vec<TaskStats> = Vec::new();
    assert(ps.take(0) =~= Seq::<PhaseView>::empty());
    for i in 0..phases.len()
        invariant
            ps == phase_views(phases@),
            r@ == all_features(ps.take(i as int)).map_values(|f: FeatureView| f.tasks),
    {
        let ghost before = r@;
        let p = &phases[i];
        for j in 0..p.features.len()
            invariant
                r@ == before + p@.features.take(j as int).map_values(|f: FeatureView| f.tasks),
        {
            r.push(p.features[j].tasks);
            assert(r@ =~= before + p@.features.take(j + 1).map_values(|f: FeatureView| f.tasks));
        }
        assert(ps.take(i + 1).drop_last() =~= ps.take(i as int));
        assert(p@.features.take(p@.features.len() as int) =~= p@.features);
        assert(r@ =~= all_features(ps.take(i + 1)).map_values(|f: FeatureView| f.tasks));
    }
    assert(ps.take(phases@.len() as int) =~= ps);
    r
}

proof fn lemma_sum_step(fs: Seq<FeatureView>, k: int)
    requires
        0 <= k < fs.len(),
    ensures
        sum_total(fs.take(k + 1)) == sum_total(fs.take(k)) + fs[k].tasks.total,
        sum_completed(fs.take(k + 1)) == sum_completed(fs.take(k)) + fs[k].tasks.completed,
        sum_in_progress(fs.take(k + 1)) == sum_in_progress(fs.take(k)) + fs[k].tasks.in_progress,
        sum_not_started(fs.take(k + 1)) == sum_not_started(fs.take(k)) + fs[k].tasks.not_started,
        sum_blocked(fs.take(k + 1)) == sum_blocked(fs.take(k)) + fs[k].tasks.blocked,
{
    assert(fs.take(k + 1).drop_last() =~= fs.take(k));
}

/// Task counts summed over all features of a dashboard.
pub fn task_summary(d: &ProjectDashboard) -> (r: TaskTotals)
    ensures
        totals_of(r, all_features(d@.phases)),
{
    let stats = all_stats(&d.phases);
    let ghost fs = all_features(d@.phases);
    let n = stats.len();
    let mut t = TaskTotals { total: 0, completed: 0, in_progress: 0, not_started: 0, blocked: 0 };
    let m: u128 = usize::MAX as u128;
    assert(fs.take(0) =~= Seq::<FeatureView>::empty());
    for i in 0..n
        invariant
            n == stats@.len() == fs.len(),
            stats@ == fs.map_values(|f: FeatureView| f.tasks),
            m == usize::MAX,
            totals_of(t, fs.take(i as int)),
            t.total <= i * m,
            t.completed <= i * m,
            t.in_progress <= i * m,
            t.not_started <= i * m,
            t.blocked <= i * m,
    {
        proof {
            lemma_sum_step(fs, i as int);
            let k = i as int;
            assert((k + 1) * m <= m * m) by (nonlinear_arith)
                requires
                    k + 1 <= m,
            ;
            assert(k * m + m == (k + 1) * m) by (nonlinear_arith);
            assert(m * m <= u128::MAX) by (nonlinear_arith)
                requires
                    m <= 0xffff_ffff_ffff_ffffu128,
            ;
            assert(stats@[k].total <= m && stats@[k].completed <= m && stats@[k].in_progress <= m
                && stats@[k].not_started <= m && stats@[k].blocked <= m);
            assert(fs[k].tasks == stats@[k]);
        }
        let s = stats[i];
        t.total = t.total + s.total as u128;
        t.completed = t.completed + s.completed as u128;
        t.in_progress = t.in_progress + s.in_progress as u128;
        t.not_started = t.not_started + s.not_started as u128;
        t.blocked = t.blocked + s.blocked as u128;
    }
    assert(fs.take(n as int) =~= fs);
    t
}

/// The markdown line of one feature.
pub open spec fn feature_line(f: FeatureView) -> Seq<char> {
    "- **"@ + f.feature_name + "** ("@ + f.priority + ") - "@ + percent_text(f.progress as nat)
        + "% - "@ + f.status.code_spec() + "\n"@
}

/// The markdown lines of features, in order.
pub open spec fn feature_lines(fs: Seq<FeatureView>) -> Seq<char>
    decreases fs.len(),
{
    if fs.len() == 0 {
        Seq::empty()
    } else {
        feature_lines(fs.drop_last()) + feature_line(fs.last())
    }
}

/// The markdown section of one phase.
pub open spec fn phase_section(p: PhaseView) -> Seq<char> {
    "### "@ + p.phase_name + "\n\n**"@ + percent_text(p.progress as nat) + "%** Complete\n\n"@
        + bar_text(p.progress as nat) + "\n\n#### Features\n\n"@ + feature_lines(p.features)
        + "\n"@
}

/// The markdown sections of phases, in order.
pub open spec fn phase_sections(ps: Seq<PhaseView>) -> Seq<char>
    decreases ps.len(),
{
    if ps.len() == 0 {
        Seq::empty()
    } else {
        phase_sections(ps.drop_last()) + phase_section(ps.last())
    }
}

/// The task summary; blocked tasks are listed only when there are some.
pub open spec fn summary_section(fs: Seq<FeatureView>) -> Seq<char> {
    "## Task Summary\n\n- **Total Tasks:** "@ + decimal(sum_total(fs)) + "\n- **Completed:** "@
        + decimal(sum_completed(fs)) + "\n- **In Progress:** "@ + decimal(sum_in_progress(fs))
        + "\n- **Not Started:** "@ + decimal(sum_not_started(fs)) + "\n"@ + if sum_blocked(fs) > 0 {
        "- **Blocked:** "@ + decimal(sum_blocked(fs)) + "\n"@
    } else {
        Seq::empty()
    } + "\n"@
}

/// The markdown snapshot of a dashboard last updated at `updated`.
pub open spec fn markdown_of(d: DashboardView, updated: Seq<char>) -> Seq<char> {
    "# Project Dashboard\n\n**Project:** "@ + d.project_name + "\n\n**Last Updated:** "@ + updated
        + "\n\n---\n\n## Overall Progress\n\n**"@ + percent_text(d.overall_progress as nat)
        + "%** Complete\n\n"@ + bar_text(d.overall_progress as nat) + "\n\n## Phase Progress\n\n"@
        + phase_sections(d.phases) + summary_section(all_features(d.phases))
}

/// Every percentage of the dashboard is at most 100%.
pub open spec fn percents_bounded(d: DashboardView) -> bool {
    &&& d.overall_progress <= FULL_PERCENT
    &&& forall|k: int| 0 <= k < d.phases.len() ==> (#[trigger] d.phases[k]).progress <= FULL_PERCENT
}

fn push_feature_lines(out: &mut Vec<char>, features: &Vec<crate::progress::FeatureProgress>)
    ensures
        final(out)@ == old(out)@ + feature_lines(crate::progress::feature_views(features@)),
{
    let ghost fs = crate::progress::feature_views(features@);
    let ghost start = out@;
    assert(fs.take(0) =~= Seq::<FeatureView>::empty());
    assert(out@ =~= start + feature_lines(fs.take(0)));
    for j in 0..features.len()
        invariant
            fs == crate::progress::feature_views(features@),
            out@ == start + feature_lines(fs.take(j as int)),
    {
        let f = &features[j];
        let ghost before = out@;
        push_str(out, "- **");
        push_str(out, f.feature_name.as_str());
        push_str(out, "** (");
        push_str(out, f.priority.as_str());
        push_str(out, ") - ");
        push_percent(out, f.progress);
        push_str(out, "% - ");
        let code = f.status.code();
        push_str(out, code.as_str());
        push_str(out, "\n");
        assert(fs.take(j + 1).drop_last() =~= fs.take(j as int));
        assert(out@ =~= before + feature_line(fs[j as int]));
        assert(out@ =~= start + feature_lines(fs.take(j + 1)));
    }
    assert(fs.take(features@.len() as int) =~= fs);
}

fn push_phase_sections(out: &mut Vec<char>, phases: &Vec<crate::progress::PhaseProgress>)
    requires
        forall|k: int| 0 <= k < phases@.len() ==> (#[trigger] phases@[k]).progress <= FULL_PERCENT,
    ensures
        final(out)@ == old(out)@ + phase_sections(phase_views(phases@)),
{
    let ghost ps = phase_views(phases@);
    let ghost start = out@;
    assert(ps.take(0) =~= Seq::<PhaseView>::empty());
    assert(out@ =~= start + phase_sections(ps.take(0)));
    for i in 0..phases.len()
        invariant
            ps == phase_views(phases@),
            forall|k: int| 0 <= k < phases@.len() ==> (#[trigger] phases@[k]).progress <= FULL_PERCENT,
            out@ == start + phase_sections(ps.take(i as int)),
    {
        let p = &phases[i];
        let ghost before = out@;
        push_str(out, "### ");
        push_str(out, p.phase_name.as_str());
        push_str(out, "\n\n**");
        push_percent(out, p.progress);
        push_str(out, "%** Complete\n\n");
        push_bar(out, p.progress);
        push_str(out, "\n\n#### Features\n\n");
        push_feature_lines(out, &p.features);
        push_str(out, "\n");
        assert(ps.take(i + 1).drop_last() =~= ps.take(i as int));
        assert(out@ =~= before + phase_section(ps[i as int]));
        assert(out@ =~= start + phase_sections(ps.take(i + 1)));
    }
    assert(ps.take(phases@.len() as int) =~= ps);
}

fn push_summary(out: &mut Vec<char>, d: &ProjectDashboard)
    ensures
        final(out)@ == old(out)@ + summary_section(all_features(d@.phases)),
{
    let t = task_summary(d);
    let ghost start = out@;
    push_str(out, "## Task Summary\n\n- **Total Tasks:** ");
    push_decimal(out, t.total);
    push_str(out, "\n- **Completed:** ");
    push_decimal(out, t.completed);
    push_str(out, "\n- **In Progress:** ");
    push_decimal(out, t.in_progress);
    push_str(out, "\n- **Not Started:** ");
    push_decimal(out, t.not_started);
    push_str(out, "\n");
    if t.blocked > 0 {
        push_str(out, "- **Blocked:** ");
        push_decimal(out, t.blocked);
        push_str(out, "\n");
    }
    push_str(out, "\n");
    assert(out@ =~= start + summary_section(all_features(d@.phases)));
}

/// The markdown snapshot of a dashboard: a title block, the overall bar, a
/// section with a bar per phase listing its features, and a task summary.
pub fn render_markdown(d: &ProjectDashboard, updated: &str) -> (r: String)
    requires
        percents_bounded(d@),
    ensures
        r@ == markdown_of(d@, updated@),
{
    let mut out: Vec<char> = Vec::new();
    push_str(&mut out, "# Project Dashboard\n\n**Project:** ");
    push_str(&mut out, d.project_name.as_str());
    push_str(&mut out, "\n\n**Last Updated:** ");
    push_str(&mut out, updated);
    push_str(&mut out, "\n\n---\n\n## Overall Progress\n\n**");
    push_percent(&mut out, d.overall_progress);
    push_str(&mut out, "%** Complete\n\n");
    push_bar(&mut out, d.overall_progress);
    push_str(&mut out, "\n\n## Phase Progress\n\n");
    proof {
        assert forall|k: int| 0 <= k < d.phases@.len() implies (#[trigger] d.phases@[k]).progress
            <= FULL_PERCENT by {
            assert(d@.phases[k] == d.phases@[k]@);
        }
    }
    push_phase_sections(&mut out, &d.phases);
    push_summary(&mut out, d);
    assert(out@ =~= markdown_of(d@, updated@));
    string_of(out.as_slice())
}

} // verus!
