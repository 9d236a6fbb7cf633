//! What the views show, as plain data: owned texts, numbers and small enums. Nothing here decides;
//! a view is never a gate. Texts are shown as they are, and whoever renders them escapes them.

pub mod access;
pub mod action;
pub mod admission;
pub mod alerts;
pub mod findings;
pub mod readiness;
pub mod scope_preview;
pub mod signing;
pub mod status;
