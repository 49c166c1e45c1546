//! Verified core of the Raven agent runtime: schedules, skills, tool
//! metadata and argument builders, tool health checks, reliability
//! windows, circuit breakers and the terminal UI's state helpers.
pub mod text;
pub mod cron;
pub mod skills;
pub mod tools;
pub mod commands;
pub mod tui;
pub mod scheduler;
pub mod fallback;
pub mod validator;
pub mod registry;
pub mod catalog;
pub mod reliability;
pub mod dry_run;
pub mod sandbox;
pub mod web;
pub mod runtime;
pub mod providers;
pub mod data;
pub mod system;
pub mod app;
pub mod store;
pub mod schemas;
pub mod chat;
pub mod graph;
