//! Terminals of agents and projects: long-lived processes that run on an executor
//! under a lease, with a row of their own.

pub mod acquire;
pub mod exit;
pub mod lease;
pub mod output;
pub mod resource;
pub mod restart;
pub mod spawn;
