//! Core of a desktop tool that replaces a chat client's installed
//! modification safely: a process registry that quiesces and relaunches
//! the host application, a backup store with retention policies, and
//! the pipeline orchestrator that sequences the steps and compensates
//! on failure.

pub mod backup;
pub mod deps;
pub mod discord;
pub mod options;
pub mod pipeline;
pub mod process;
pub mod repo;
pub mod text;
pub mod themes;
