//! A process manager: the rules by which apps are configured, started, watched,
//! restarted, stopped and shown, without the processes, files and sockets
//! themselves.

pub mod agent;
pub mod cli;
pub mod config;
pub mod error;
pub mod ipc;
pub mod launch;
pub mod lifecycle;
pub mod listing;
pub mod managed;
pub mod model;
pub mod names;
pub mod paths;
pub mod runs;
pub mod schedule;
pub mod signals;
pub mod supervisor;
pub mod text;
pub mod tui;
pub mod web;
