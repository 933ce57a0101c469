//! The decisions of a download proxy for one code-hosting platform: which
//! URLs it serves, which requests its access rules admit, divert or reject,
//! and what it does with each answer of the origin.

pub mod access;
pub mod config;
pub mod headers;
pub mod proxy;
pub mod routes;
pub mod text;
