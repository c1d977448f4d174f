//! The project state gathered while discussing an idea: name, features,
//! phases and the rest, each possibly not yet known.
use vstd::prelude::*;

verus! {

/// A feature of the project.
pub struct Feature {
    pub name: String,
    pub description: String,
    pub priority: String,
}

/// A phase of the project, naming its features.
pub struct Phase {
    pub name: String,
    pub description: String,
    pub features: Vec<String>,
}

/// What is known of the project.
pub struct ProjectState {
    pub project_name: Option<String>,
    pub idea: Option<String>,
    pub tech_stack: Option<Vec<String>>,
    pub features: Option<Vec<Feature>>,
    pub phases: Option<Vec<Phase>>,
    pub improvements: Option<Vec<String>>,
    pub notes: Option<String>,
}

impl ProjectState {
    /// A state in which nothing is known yet.
    pub fn new() -> (r: Self)
        ensures
            r.project_name is None,
            r.idea is None,
            r.tech_stack is None,
            r.features is None,
            r.phases is None,
            r.improvements is None,
            r.notes is None,
    {
        ProjectState {
            project_name: None,
            idea: None,
            tech_stack: None,
            features: None,
            phases: None,
            improvements: None,
            notes: None,
        }
    }
}

} // verus!
