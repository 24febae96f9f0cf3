//! The handlers of the tool server.

pub mod skills;
pub mod skills_resources;
pub mod slug;
pub mod terminal;
pub mod todos;
pub mod tool_use_correlation;
pub mod warm_search;
pub mod watch;
pub mod web;
pub mod workflows;
pub mod write;
