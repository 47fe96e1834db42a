use vstd::prelude::*;

pub mod builder;
pub mod bundle;
pub mod bridge;
pub mod challenge;
pub mod cli;
pub mod commit;
pub mod dfs;
pub mod failure;
pub mod file_ops;
pub mod installer;
pub mod ipc;
pub mod journal;
pub mod lookup;
pub mod mirror;
pub mod native;
pub mod network;
pub mod plugin;
pub mod prompts;
pub mod registry;
pub mod run;
pub mod runtimes;
pub mod scan;
pub mod session;
pub mod sorted;
pub mod tasks;
pub mod ssh;
pub mod text;
pub mod ui_session;

verus! {
} // verus!
