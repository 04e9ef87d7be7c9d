pub mod fallback;
pub mod udp;

pub use fallback::PrefixedStream;
pub use udp::UdpFrame;
