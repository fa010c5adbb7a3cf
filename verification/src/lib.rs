//! Core of a VR game launcher: a catalogue of launchable titles, a launch
//! dispatcher that turns a title into an OS-level launch action, a process
//! tracker that finds the supervisor process actually running an
//! indirect-launch title, a termination engine that computes and kills the
//! whole process tree, and the launch state machine that the UI observes.
//!
//! All slow or effectful work (URL opens, process spawns, settle delays,
//! retry loops) is left to the embedding application; this crate holds the
//! decisions and the process-table logic, verified.

pub mod strutil;
pub mod catalog;
pub mod parse;
pub mod state;
pub mod process_table;
pub mod tracker;
pub mod terminate;
