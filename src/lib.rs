//! A hub that supervises one child process and fans its output lines out to
//! a changing set of subscribers, each behind a small bounded queue.
pub mod bridge;
pub mod broadcaster;
pub mod config;
pub mod messages;
pub mod supervisor;
pub mod text;
