//! Verified core of a Trojan / Vision proxy server: wire formats, request
//! validation, connection dispatch decisions and connection state tracking.
//! Socket, TLS and runtime plumbing lives outside this crate's verified part.

pub mod buffer;
pub mod config;
pub mod crypto;
pub mod error;
pub mod pem;
pub mod protocol;
pub mod proxy;
pub mod reality;
pub mod server;
pub mod text;
pub mod tls;

pub use config::Config;
pub use error::{Result, TrojanError};
pub use reality::{ConnectionStateMachine, DirectSplice, VisionProtocol};
