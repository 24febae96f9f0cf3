//! The `write` tool: batches of changes to files and resources.

pub mod apply;
pub mod apply_run;
pub mod batch;
pub mod call;
pub mod closing;
pub mod commit;
pub mod diagnostics;
pub mod file_mutations;
pub mod host_edit;
pub mod paths;
pub mod preview;
pub mod preview_run;
pub mod progress;
pub mod rename;
pub mod replay;
pub mod types;
