//! An encrypted tunnel that carries SOCKS5, HTTP and terminal traffic over plain
//! HTTP: the protocol, the framing and the rules of both ends.

pub mod archive;
pub mod cli;
pub mod config;
pub mod crypto;
pub mod delivery;
pub mod end_to_end;
pub mod envelope;
pub mod exec;
pub mod http_proxy;
pub mod protocol;
pub mod proxy;
pub mod pty_relay;
pub mod relay;
pub mod reload;
pub mod server;
pub mod session;
pub mod socks5;
pub mod sse;
pub mod tcp_relay;
pub mod text;
pub mod transfer;
pub mod tunnel;
pub mod uri;
pub mod wire;
