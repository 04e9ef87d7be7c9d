pub mod codec;
pub mod address;
pub mod command;
pub mod header;
pub mod ipv6;

pub use address::{Address, SocketAddress};
pub use command::Command;
pub use header::{Header, PEEK_SIZE};
