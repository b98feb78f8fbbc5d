//! Core logic of a multi-host container dashboard: metric smoothing, log-line
//! parsing, host-monitor bookkeeping, and the single-owner event reducer that
//! folds every producer's events into one consistent, render-ready state.

pub mod app_state;
pub mod config;
pub mod input;
pub mod logs;
pub mod monitor;
pub mod order;
pub mod schedule;
pub mod stats;
pub mod strutil;
pub mod types;
pub mod ui;
