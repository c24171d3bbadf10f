//! The decisions behind NovelNote, a self-hosted book tracker.

pub mod admin;
pub mod backup;
pub mod chronology;
pub mod civil;
pub mod command;
pub mod config;
pub mod database;
pub mod io;
pub mod path;
pub mod serve;
pub mod server;
pub mod text;
pub mod timeout;
pub mod trace;
