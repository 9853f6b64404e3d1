//! The logic of a self-hosted, distributed build farm.
//!
//! The library decides, and whoever uses it acts: what needs the world around it is stated as a
//! procedure, in the terms of [`work`].

// Text, and what is written with it.
pub mod base64;
pub mod http;
pub mod json_text;
pub mod order;
pub mod paths;
pub mod payload;
pub mod text;

// What the farm knows, and the language in which procedures ask and act.
pub mod clock;
pub mod config;
pub mod records;
pub mod work;

// The orchestrator.
pub mod api;
pub mod commands;
pub mod gateway;
pub mod jobs;
pub mod packages;
pub mod peers;
pub mod serve;
pub mod shell;
pub mod webui;
pub mod wireguard;
pub mod workers;

// Workers and clients.
pub mod builds;
pub mod client;
pub mod wg_setup;
pub mod worker;
