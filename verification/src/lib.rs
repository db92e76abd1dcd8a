//! Notification rule engine and settings state of a GitHub notification client.

pub mod calendar;
pub mod text;
pub mod seqs;
pub mod rules;
pub mod engine;
pub mod trace_laws;
pub mod rule_screen;
pub mod window_state;
pub mod theme;
pub mod settings_screen;
pub mod inspector;
pub mod explain;
pub mod visual;
pub mod labels;
