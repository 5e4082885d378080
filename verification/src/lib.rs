//! A relay for an encrypted overlay network: frame codec, handshake,
//! per-connection decisions and the routing directory.
pub mod codec;
pub mod crypto;
pub mod error;
pub mod proto;
pub mod inout;
pub mod directory;
pub mod client;
pub mod service;
pub mod mesh_client;
pub mod config;
pub mod laws;
