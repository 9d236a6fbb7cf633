//! The view models of a cluster security engine: how its graph, findings, readiness and records
//! become what a dashboard shows.
//!
//! What a view may say is proved: no finding reads as cleared that the model did not clear, no tab
//! reads all clear while there is a breach, and what cannot be seen is never shown as safe.

#![allow(unused_imports)]

pub mod delta;
pub mod graph;
pub mod graph_laws;
pub mod graph_reading_laws;
pub mod image;
pub mod order;
pub mod props;
pub mod seqs;
pub mod security_graph;
pub mod security_graph_laws;
pub mod state;
pub mod text;
pub mod text_laws;
pub mod text_set;
pub mod view_model;
