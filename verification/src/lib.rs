//! The translation core of a path-rewriting HTTP reverse proxy.
pub mod body;
pub mod config;
pub mod filters;
pub mod header;
pub mod request;
pub mod response;
pub mod template;
pub mod text;
