pub mod handshake;
pub mod splice;
pub mod state_machine;
pub mod vision;

pub use splice::{DirectSplice, UnwrapStream};
pub use state_machine::{ConnectionState, ConnectionStateMachine};
pub use vision::{VisionAuthRequest, VisionProtocol};
