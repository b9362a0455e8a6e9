//! Routing, header translation and response shaping for an HTTP reverse proxy.

pub mod args;
pub mod config;
pub mod handler;
pub mod header;
pub mod request;
pub mod response;
pub mod route;
pub mod search;
pub mod text;
pub mod tls;
pub mod translate;
