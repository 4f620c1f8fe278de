//! The deciding half of `vm`: what to run, what to say and what to refuse.

pub mod agent;
pub mod calendar;
pub mod claude;
pub mod cli;
pub mod clock;
pub mod commands;
pub mod config;
pub mod deploy;
pub mod doctor;
pub mod exec;
pub mod exit;
pub mod guest_env;
pub mod idle;
pub mod journal;
pub mod json;
pub mod lock;
pub mod mapping;
pub mod ordmap;
pub mod prl;
pub mod prldnd;
pub mod probe;
pub mod process;
pub mod proto;
pub mod reap;
pub mod repo_config;
pub mod ssh;
pub mod sync;
pub mod text;
