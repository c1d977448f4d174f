//! The whole roll-up: from what a scan of the plan tree found to the project
//! dashboard, with each feature's priority read from its persisted record.
use vstd::prelude::*;
use crate::naming::{display_name, extract_name_from_path};
use crate::progress::{
    FULL_PERCENT, FeatureProgress, FeatureView, PhaseProgress, PhaseView, TaskStats, all_wf,
    compute_overall_progress, count_status, count_tasks, feature_views, group_into_phases,
    lemma_phase_percent_bounded, mean, percent_of, phase_percents, phase_views, phases_of,
    status_for, task_statuses,
};
use crate::render::percents_bounded;
use crate::task::{Status, tasks_of};
use crate::text::{chars_of, split_at_char, split_on, string_of, views};

verus! {

/// What `serde_json` finds as the string member `key` of the JSON object
/// written in `text` (none if `text` is not JSON, not an object, or the member
/// is absent or not a string).
pub uninterp spec fn json_string_member(text: Seq<char>, key: Seq<char>) -> Option<Seq<char>>;

/// Relies on `serde_json::from_str` into a `serde_json::Value`, then
/// `Value::get` and `Value::as_str`: the string member `key` of the object
/// that `text` holds. The result depends on the arguments alone.
#[verifier::external_body]
fn string_member(text: &str, key: &str) -> (r: Option<String>)
    ensures
        r matches Some(s) ==> json_string_member(text@, key@) == Some(s@),
        r is None ==> json_string_member(text@, key@) is None,
{
    match serde_json::from_str::<serde_json::Value>(text) {
        Ok(v) => match v.get(key) {
            Some(m) => m.as_str().map(str::to_string),
            None => None,
        },
        Err(_) => None,
    }
}

/// The view of an optional string.
pub open spec fn opt_view(o: Option<String>) -> Option<Seq<char>> {
    match o {
        Some(s) => Some(s@),
        None => None,
    }
}

/// The priority of a feature whose record gives none.
pub open spec fn default_priority() -> Seq<char> {
    "medium"@
}

/// The priority found, or the default.
pub open spec fn priority_from(found: Option<Seq<char>>) -> Seq<char> {
    match found {
        Some(p) => p,
        None => default_priority(),
    }
}

/// The priority of a feature: the `priority` member of its persisted record,
/// if there is a record and it holds one; else the default.
pub open spec fn record_priority(record: Option<Seq<char>>) -> Seq<char> {
    match record {
        Some(t) => priority_from(json_string_member(t, "priority"@)),
        None => default_priority(),
    }
}

/// The `priority` member of a persisted progress record, if it has one.
pub fn read_priority(record: &str) -> (r: Option<String>)
    ensures
        opt_view(r) == json_string_member(record@, "priority"@),
{
    string_member(record, "priority")
}

/// The priority found, or the default `medium`.
pub fn priority_or_default(found: Option<String>) -> (r: String)
    ensures
        r@ == priority_from(opt_view(found)),
{
    match found {
        Some(p) => p,
        None => "medium".to_string(),
    }
}

/// The priority of a feature, from its persisted record if there is one.
pub fn feature_priority(record: &Option<String>) -> (r: String)
    ensures
        r@ == record_priority(opt_view(*record)),
{
    match record {
        Some(t) => priority_or_default(read_priority(t.as_str())),
        None => priority_or_default(None),
    }
}

/// Where a feature's task list lies, relative to the plan root: the phase
/// directory and the feature directory, when the feature directory's
/// relative path has exactly these two components.
pub open spec fn feature_location(relative_dir: Seq<char>) -> Option<(Seq<char>, Seq<char>)> {
    let parts = split_on(relative_dir, '/');
    if parts.len() == 2 {
        Some((parts[0], parts[1]))
    } else {
        None
    }
}

/// The phase and feature directory of a feature directory given relative to
/// the plan root; none unless it lies directly under a phase directory.
pub fn locate_feature(relative_dir: &str) -> (r: Option<(String, String)>)
    ensures
        r is Some <==> feature_location(relative_dir@) is Some,
        r matches Some((p, f)) ==> feature_location(relative_dir@) == Some((p@, f@)),
{
    let s = chars_of(relative_dir);
    let parts = split_at_char(s.as_slice(), '/');
    if parts.len() == 2 {
        assert(views(parts@)[0] == parts@[0]@);
        assert(views(parts@)[1] == parts@[1]@);
        Some((string_of(parts[0].as_slice()), string_of(parts[1].as_slice())))
    } else {
        None
    }
}

/// What a scan of the plan tree found for one feature.
pub struct FeatureSource {
    /// Name of the phase directory.
    pub phase_dir: String,
    /// Name of the feature directory.
    pub feature_dir: String,
    /// Text of the feature's task list.
    pub tasks_text: String,
    /// Text of the feature's persisted progress record, if there is one.
    pub progress_record: Option<String>,
}

/// What a feature source holds.
pub ghost struct SourceView {
    pub phase_dir: Seq<char>,
    pub feature_dir: Seq<char>,
    pub tasks_text: Seq<char>,
    pub progress_record: Option<Seq<char>>,
}

impl View for FeatureSource {
    type V = SourceView;

    open spec fn view(&self) -> SourceView {
        SourceView {
            phase_dir: self.phase_dir@,
            feature_dir: self.feature_dir@,
            tasks_text: self.tasks_text@,
            progress_record: opt_view(self.progress_record),
        }
    }
}

/// The views of feature sources.
pub open spec fn source_views(s: Seq<FeatureSource>) -> Seq<SourceView> {
    s.map_values(|f: FeatureSource| f@)
}

/// The counts of statuses `ts`.
pub open spec fn stats_of(ts: Seq<Status>) -> TaskStats {
    TaskStats {
        total: ts.len() as usize,
        completed: count_status(ts, Status::Completed) as usize,
        in_progress: count_status(ts, Status::InProgress) as usize,
        not_started: count_status(ts, Status::NotStarted) as usize,
        blocked: count_status(ts, Status::Blocked) as usize,
    }
}

/// The progress record of a scanned feature.
pub open spec fn feature_of(src: SourceView) -> FeatureView {
    let stats = stats_of(task_statuses(tasks_of(src.tasks_text)));
    let percent = percent_of(stats.completed as nat, stats.total as nat);
    FeatureView {
        feature_name: display_name(src.feature_dir),
        phase_name: display_name(src.phase_dir),
        priority: record_priority(src.progress_record),
        progress: percent as u32,
        status: status_for(percent, stats.in_progress as nat, stats.blocked as nat),
        tasks: stats,
    }
}

/// The progress record of a scanned feature: names from its directories,
/// statistics from its task list, priority from its persisted record.
pub fn build_feature(src: &FeatureSource) -> (r: FeatureProgress)
    ensures
        r@ == feature_of(src@),
        r@.wf(),
{
    let stats = count_tasks(src.tasks_text.as_str());
    proof {
        assert(stats == stats_of(task_statuses(tasks_of(src.tasks_text@))));
    }
    FeatureProgress::new(
        extract_name_from_path(src.feature_dir.as_str()),
        extract_name_from_path(src.phase_dir.as_str()),
        feature_priority(&src.progress_record),
        stats,
    )
}

/// The project dashboard.
pub struct ProjectDashboard {
    pub project_name: String,
    /// Hundredths of a percent.
    pub overall_progress: u32,
    pub phases: Vec<PhaseProgress>,
}

/// What a dashboard holds.
pub ghost struct DashboardView {
    pub project_name: Seq<char>,
    pub overall_progress: u32,
    pub phases: Seq<PhaseView>,
}

impl View for ProjectDashboard {
    type V = DashboardView;

    open spec fn view(&self) -> DashboardView {
        DashboardView {
            project_name: self.project_name@,
            overall_progress: self.overall_progress,
            phases: phase_views(self.phases@),
        }
    }
}

/// The name of a project that has none.
pub open spec fn untitled() -> Seq<char> {
    "Untitled Project"@
}

/// The dashboard of a project: its features, read from the sources in order,
/// grouped into phases; overall progress is the unweighted mean over phases.
pub open spec fn dashboard_of(name: Option<Seq<char>>, sources: Seq<SourceView>) -> DashboardView {
    let phases = phases_of(sources.map_values(|s: SourceView| feature_of(s)));
    DashboardView {
        project_name: match name {
            Some(n) => n,
            None => untitled(),
        },
        overall_progress: mean(phase_percents(phases)) as u32,
        phases,
    }
}

/// Computes the dashboard from the features a scan found, in the order
/// found (phase directory, then feature directory).
pub fn compute_dashboard(project_name: &Option<String>, sources: &Vec<FeatureSource>) -> (r:
    ProjectDashboard)
    ensures
        r@ == dashboard_of(opt_view(*project_name), source_views(sources@)),
        forall|k: int| 0 <= k < r@.phases.len() ==> (#[trigger] r@.phases[k]).wf(),
        percents_bounded(r@),
{
    let ghost fs = source_views(sources@).map_values(|s: SourceView| feature_of(s));
    let mut features: Vec<FeatureProgress> = Vec::new();
    for i in 0..sources.len()
        invariant
            fs == source_views(sources@).map_values(|s: SourceView| feature_of(s)),
            feature_views(features@) == fs.take(i as int),
            all_wf(feature_views(features@)),
    {
        let f = build_feature(&sources[i]);
        let ghost before = features@;
        let ghost fv = f@;
        assert(fs[i as int] == fv);
        features.push(f);
        assert(feature_views(features@) =~= feature_views(before).push(fv));
        assert(feature_views(features@) =~= fs.take(i + 1));
    }
    assert(fs.take(sources@.len() as int) =~= fs);
    let phases = group_into_phases(&features);
    let overall = compute_overall_progress(&phases);
    let name = match project_name {
        Some(n) => n.clone(),
        None => "Untitled Project".to_string(),
    };
    let r = ProjectDashboard { project_name: name, overall_progress: overall, phases };
    proof {
        assert forall|k: int| 0 <= k < r@.phases.len() implies (#[trigger] r@.phases[k]).progress
            <= FULL_PERCENT by {
            assert(r@.phases[k] == r.phases@[k]@);
            lemma_phase_percent_bounded(r@.phases[k]);
        }
    }
    r
}

/// Recomputing on an unchanged tree gives the same dashboard: whatever two
/// runs of `compute_dashboard` return on the same sources is equal in every
/// record (the time stamp is added when records are written).
pub proof fn law_recompute_is_identical(
    name: Option<Seq<char>>,
    sources: Seq<SourceView>,
    first: DashboardView,
    second: DashboardView,
)
    requires
        first == dashboard_of(name, sources),
        second == dashboard_of(name, sources),
    ensures
        first == second,
        first.phases =~= second.phases,
{
}

} // verus!
