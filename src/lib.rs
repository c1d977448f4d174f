//! Progress tracking for hierarchical project plans: task-list parsing,
//! bottom-up progress roll-ups, a human-readable snapshot, and next-task
//! recommendation, each with its contract proved.
//!
//! Percentages are held in hundredths of a percent (see
//! `progress::FULL_PERCENT`).

pub mod dashboard;
pub mod generators;
pub mod naming;
pub mod progress;
pub mod recommend;
pub mod render;
pub mod state;
pub mod task;
pub mod text;
pub mod workspace;
