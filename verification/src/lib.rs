//! A verified core for a game-server watchdog.
//!
//! Every decision of the watchdog is made here: which build of a fork to run, which files to
//! extract, how a server is started, when it is killed or started again, and who may command it.
//! Where a decision depends on what happens outside, it is a machine: its `step` takes in what
//! happened and says what to do next, and its `is_expected` tells what can happen now.

pub mod auth;
pub mod config;
pub mod course;
pub mod digest;
pub mod errors;
pub mod extract;
pub mod forks;
pub mod handlers;
pub mod instances;
pub mod launch;
pub mod manifest;
pub mod run;
pub mod setup;
pub mod supervisor;
pub mod table;
pub mod text;
