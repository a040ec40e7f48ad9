use vstd::prelude::*;

pub mod text;
pub mod manifest;
pub mod targets;
pub mod workflow;
pub mod xtask;
pub mod output;
pub mod plan;
pub mod report;
pub mod metadata;
pub mod checks;
pub mod tooling;
pub mod commands;
pub mod logfiles;
pub mod rtlog;
pub mod recentlogs;
pub mod validators;
pub mod planner;
pub mod packages;
pub mod gui;
pub mod ports;
pub mod notifier;
pub mod lifecycle;
pub mod wracmeta;

verus! {

/// Returns `true`; used as the serde default for boolean manifest fields.
pub fn default_true() -> (r: bool)
    ensures
        r,
{
    true
}

} // verus!
