//! The rules of a reverse-tunnel server, apart from its sockets and its database.

pub mod acl_store;
pub mod api;
pub mod certificate;
pub mod channel;
pub mod clock;
pub mod config;
pub mod config_sync;
pub mod conn_limiter;
pub mod conn_registry;
pub mod event;
pub mod http_proxy;
pub mod https_proxy;
pub mod ids;
pub mod ip;
pub mod login_limiter;
pub mod maps;
pub mod quic;
pub mod readiness;
pub mod route;
pub mod session;
pub mod startup;
pub mod tcp_proxy;
pub mod text;
pub mod tls;
pub mod tls_passthrough;
pub mod udp_proxy;
