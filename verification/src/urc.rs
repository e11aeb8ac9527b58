//! Unsolicited notifications: what the modem sends without having been asked.
use vstd::prelude::*;
use crate::digester::{result_is, ParseError, Scan};

verus! {

/// The notifications that this library tells apart.
#[derive(Debug, PartialEq, Eq, Clone)]
pub enum URCMessages<const RX_SIZE: usize> {
    /// A notification of a kind that the library does not know.
    Unknown,
}

/// The notification grammar. It knows no notification of this modem, so it
/// matches nothing and never asks for more bytes.
pub open spec fn notification(s: Seq<u8>) -> Scan {
    Scan::NoMatch
}

/// Looks for a notification at the start of `buf`.
pub fn parse(buf: &[u8]) -> (r: Result<(&[u8], usize), ParseError>)
    ensures
        result_is(r, buf@, notification(buf@)),
{
    Err(ParseError::NoMatch)
}

impl<const RX_SIZE: usize> URCMessages<RX_SIZE> {
    /// Looks for a notification at the start of `buf`.
    pub fn parse(buf: &[u8]) -> (r: Result<(&[u8], usize), ParseError>)
        ensures
            r == Err::<(&[u8], usize), ParseError>(ParseError::NoMatch),
    {
        self::parse(buf)
    }

    /// Decodes the payload of a notification. Every payload is a notification
    /// of unknown kind.
    pub fn decode(resp: &[u8]) -> (r: Option<Self>)
        ensures
            r == Some(URCMessages::<RX_SIZE>::Unknown),
    {
        Some(URCMessages::Unknown)
    }
}

} // verus!
