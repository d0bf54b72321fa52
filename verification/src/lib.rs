//! A TLS-terminating reverse proxy: configuration, request policy, upstream
//! routing and certificate selection by server name.
pub mod config;
pub mod errors;
pub mod response;
pub mod text;
pub mod request;
pub mod router;
pub mod lb;
pub mod tls;
pub mod utils;
pub mod laws;
