//! Relay of WakaTime-compatible traffic to several servers: the configuration
//! of the servers, the requests that are forwarded to them, and the replies.

pub mod config;
pub mod headers;
pub mod laws;
pub mod relay;
pub mod text;
pub mod wakatime;
