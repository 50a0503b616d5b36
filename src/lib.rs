//! Scheduling core of a git-hook lint/format orchestrator: step selection,
//! job construction, file locking, dependency barriers, group ordering and
//! the stash protocol's decisions, all stated and proved with Verus.
pub mod cache;
pub mod check_first;
pub mod commands;
pub mod env;
pub mod error;
pub mod file_rw_locks;
pub mod git;
pub mod glob;
pub mod hash;
pub mod hook;
pub mod run_type;
pub mod scheduler;
pub mod settings;
pub mod stash;
pub mod step;
pub mod step_context;
pub mod step_depends;
pub mod step_group;
pub mod step_job;
pub mod step_queue;
pub mod template;
pub mod text;
pub mod version;
