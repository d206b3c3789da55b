//! Host-side client engine for the EverDrive N8 serial command/response
//! protocol: command framing, little-endian primitive codec, flow-controlled
//! bulk transfer, directory/file record decoding, and the connection/session
//! lifecycle. All protocol logic is verified; the serial transport itself is
//! abstracted behind the [`channel::Channel`] trait.

pub mod channel;
pub mod cmd;
pub mod codec;
pub mod datetime;
pub mod err;
pub mod session;
