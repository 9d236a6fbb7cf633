//! The view models: how the engine's output state becomes what the views show. Nothing here
//! decides; a view is never a gate.

pub mod access;
pub mod action;
pub mod activity;
pub mod admission;
pub mod alerts;
pub mod attack_vectors;
pub mod bake;
pub mod endpoints;
pub mod entry;
pub mod entry_laws;
pub mod evidence;
pub mod fact_laws;
pub mod findings;
pub mod findings_laws;
pub mod folding;
pub mod folding_laws;
pub mod folding_reading_laws;
pub mod hops;
pub mod ids;
pub mod internals;
pub mod judgements;
pub mod policy;
pub mod posture;
pub mod readiness;
pub mod readiness_data;
pub mod report;
pub mod report_data;
pub mod report_episode_laws;
pub mod report_laws;
pub mod reversions;
pub mod rows_laws;
pub mod scope_preview;
pub mod signing_inventory;
pub mod signing_laws;
pub mod signing_reading_laws;
pub mod signing_records;
pub mod status;
pub mod status_laws;
pub mod strip;
pub mod table_laws;
pub mod triples;
pub mod trust;
pub mod views;
pub mod views_laws;

pub use views::{
    build_access_view, build_action_view, build_admission_view, build_alerts_view,
    build_findings_view, build_readiness_view, build_status_strip, coverage_stall_alert,
    signing_regression_counts,
};
