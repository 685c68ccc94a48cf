//! Verified core of the VAR desktop analysis backend: the task queue, the
//! scheduler's decisions, log retention, runtime package validation and the
//! small parsers that the desktop shell relies on.

pub mod clock;
pub mod gpu;
pub mod logging;
pub mod media;
pub mod paths;
pub mod queue;
pub mod report;
pub mod resources;
pub mod runtime;
pub mod scheduler;
pub mod schema;
pub mod sorting;
pub mod task_import;
pub mod tasks;
pub mod text;
pub mod trusted;
pub mod worker;
