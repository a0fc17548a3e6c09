//! Host-side driver core for a serial-attached radio transceiver module.
//!
//! The library is free of I/O: it encodes requests into wire frames, parses the
//! incoming byte stream into checksum-validated frames, routes them into a
//! bounded response channel and a bounded event channel, and interprets each
//! response against the request that is awaiting it.
pub mod channel;
pub mod command;
pub mod frame;
pub mod ingress;
pub mod radio;

pub use channel::Channels;
pub use command::{Command, Event, Mode, Request, Response, SendDataError};
pub use frame::{Frame, Incoming};
pub use ingress::{IngestError, Ingress};
pub use radio::{Awaiting, Error, Outcome, Radio};
