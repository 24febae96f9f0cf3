//! Decision logic of the agent tool server: what each tool call means, which
//! step comes next and what the caller is told. Everything that reads or writes
//! the outside world is asked for by value and answered by value.

pub mod diff;
pub mod handlers;
pub mod hashing;
pub mod json;
pub mod oauth;
pub mod order;
pub mod scan;
pub mod text;
pub mod textmap;
