//! Codec for the line-oriented AT command protocol of the MKL62BA LoRaWAN
//! modem: typed commands are encoded to their exact wire bytes, and the bytes
//! that come back are digested frame by frame and decoded to typed responses.
//!
//! * [`codec`] writes and reads the fields: identifiers and keys in
//!   hexadecimal byte groups, numbers in decimal, payloads in hexadecimal.
//! * [`encoder`] assembles command lines; [`general::commands`] and
//!   [`lora::commands`] are the commands.
//! * [`digester`] finds the first frame in what has been received;
//!   [`envelope`] holds the frames that all AT modems share, [`urc`] the
//!   notifications, and [`ingress`] the buffer that the frames are taken from.
//! * [`payload`] lays out the payload of a response; [`general::responses`]
//!   and [`lora::responses`] are the responses.
//! * [`framing`] and [`round_trip`] state what holds of all of it.
use vstd::prelude::*;

pub mod codec;
pub mod digester;
pub mod encoder;
pub mod envelope;
pub mod framing;
pub mod general;
pub mod ingress;
pub mod lora;
pub mod payload;
pub mod round_trip;
pub mod urc;
pub mod wire;

verus! {

/// The response to a command that the modem does not answer.
#[derive(Debug, Clone, Copy, PartialEq, Eq, Structural)]
pub struct NoResponse;

} // verus!
