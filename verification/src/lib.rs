//! Verified core of the systems-modeling workspace: authored-state history
//! and commits, diagram layering and population, occurrence groups and their
//! allocation rules in internal block diagrams, connector ends and item
//! flows, parametric execution bookkeeping, and the rules a model-script run
//! follows from its text to its preview.

pub mod activity_population;
pub mod allocation;
pub mod connectors;
pub mod execution_registry;
pub mod expansion;
pub mod features;
pub mod group_text;
pub mod history;
pub mod ibd_population;
pub mod ids;
pub mod item_flows;
pub mod layout;
pub mod model_build;
pub mod model_script;
pub mod navigation;
pub mod occurrences;
pub mod package_diagrams;
pub mod parametrics;
pub mod populate;
pub mod reconcile;
pub mod script_compile;
pub mod state_population;
pub mod regrouping;
pub mod text;
pub mod workspace_state;
