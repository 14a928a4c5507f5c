//! Decision core of a retrieval-augmented knowledge-base server.
pub mod access;
pub mod account;
pub mod chat;
pub mod chunks;
pub mod clock;
pub mod commit;
pub mod config;
pub mod container;
pub mod datasets;
pub mod files;
pub mod graph;
pub mod hash;
pub mod json;
pub mod memory;
pub mod mirror;
pub mod models;
pub mod path;
pub mod reply;
pub mod retrieval;
pub mod state;
pub mod tasks;
pub mod text;
pub mod textscan;
pub mod upload;
