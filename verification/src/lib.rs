//! Verified core of the Sikaru compute executor and its companions.
pub mod deps;
pub mod text;
pub mod config;
pub mod process;
pub mod pairs;
pub mod journal;
pub mod types;
pub mod value;
pub mod api;
pub mod transport;
pub mod runtime;
pub mod tasks;
pub mod logscan;
pub mod workspace;
pub mod flow;
pub mod worker;
pub mod workflow;
pub mod compute;
pub mod input;
pub mod diagnostics;
pub mod doctor;
pub mod chat;
pub mod state;
pub mod authoring;
