//! An authorising front for a game server: it inspects the login request of each
//! client connection, checks the client's secret against a per-user password store,
//! and forwards the request, without the secret, to the real server.

pub mod config;
pub mod headers;
pub mod login;
pub mod responses;
pub mod scan;
pub mod session;
pub mod text;
