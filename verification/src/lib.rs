//! Telemetry line protocol: a three-variant message model, a decoder and
//! encoder for the newline-delimited wire format, and the stream-processing
//! step function (mode filtering and one-shot zero calibration).

pub mod msg;
pub mod grammar;
pub mod codec;
pub mod process;
pub mod roundtrip;

pub use msg::Fixed;
pub use msg::Location;
pub use msg::Raw;
pub use msg::DebugMessage;
pub use msg::Message;
pub use codec::decode;
pub use codec::encode;
pub use process::step;
pub use process::Config;
pub use process::Output;
pub use process::ProcState;
