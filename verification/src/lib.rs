//! The ping protocol: framing of ping payloads, the dialer and listener state
//! machines, and the buffering substream they run over.
mod buffers;
pub mod codec;
pub mod dialer;
pub mod dialer_laws;
pub mod endpoint;
pub mod listener;
mod platform;
pub mod substream;

pub use buffers::{bytes_content, bytes_mut_content};
pub use codec::{Codec, PING_SIZE};
pub use dialer::{DialerItem, OutState, PingDialer};
pub use endpoint::PingEndpoint;
pub use listener::PingListener;
pub use substream::{Direction, PingStream, PingStreamKey};
