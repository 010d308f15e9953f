//! Routing and forwarding core of a transparent HTTP reverse proxy: upstream
//! resolution, header forwarding policy, response reconstruction, diagnostic
//! summaries of bodies and headers, and the per-request decision flow.
pub mod config;
pub mod diagnostics;
pub mod forward;
pub mod handler;
pub mod resolver;
pub mod text;
