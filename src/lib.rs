//! A framing relay between a process's standard streams and a local
//! inter-process endpoint: the length-prefixed message codec, the retry
//! decisions of the endpoint connector and the state machine of the
//! forwarding loop.

pub mod buffer;
pub mod codec;
pub mod connect;
pub mod forward;
pub mod logging;
pub mod message;
