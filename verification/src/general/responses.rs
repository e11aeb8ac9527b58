//! Responses to the general commands, and the error kinds of the protocol.
use vstd::prelude::*;
use vstd::std_specs::convert::FromSpecImpl;
use vstd::string::StringSliceAdditionalSpecFns;
use crate::codec::{
    decode_hex_u64, hex_fault, hex_groups, parse_token, token_fault, GROUP_DELIMITER,
};
use crate::payload::{body_of, response_body, DecodeError};
use crate::wire::same_bytes;

verus! {

/// The plain acknowledgement.
#[derive(Debug, Clone, PartialEq)]
pub struct OkResponse {
    pub ok: Vec<u8>,
}

/// The longest acknowledgement that is kept.
pub const OK_CAPACITY: usize = 4;

/// The longest switch state that is kept.
pub const ON_OFF_CAPACITY: usize = 6;

/// The longest error line that is kept.
pub const ERROR_CAPACITY: usize = 20;

impl OkResponse {
    /// Decodes the payload of an acknowledgement: its body is the token.
    pub fn decode(payload: &[u8]) -> (r: Result<Self, DecodeError>)
        ensures
            r is Ok <==> token_fault(response_body(payload@), OK_CAPACITY as nat) is None,
            r matches Ok(v) ==> v.ok@ == response_body(payload@),
            r matches Err(e) ==> e == (DecodeError::Field {
                index: 0,
                fault: token_fault(response_body(payload@), OK_CAPACITY as nat)->0,
            }),
    {
        match parse_token(body_of(payload), OK_CAPACITY) {
            Ok(ok) => Ok(Self { ok }),
            Err(fault) => Err(DecodeError::Field { index: 0, fault }),
        }
    }

    /// The modem answered `OK`.
    pub fn is_ok(&self) -> (r: bool)
        ensures
            r == (self.ok@ == "OK".spec_bytes()),
    {
        same_bytes(self.ok.as_slice(), "OK".as_bytes())
    }
}

/// The state of a switch, as the modem reports it.
#[derive(Debug, Clone, PartialEq)]
pub struct OnOff {
    pub on_off: Vec<u8>,
}

impl OnOff {
    /// Decodes the payload of a switch state: its body is the token.
    pub fn decode(payload: &[u8]) -> (r: Result<Self, DecodeError>)
        ensures
            r is Ok <==> token_fault(response_body(payload@), ON_OFF_CAPACITY as nat) is None,
            r matches Ok(v) ==> v.on_off@ == response_body(payload@),
            r matches Err(e) ==> e == (DecodeError::Field {
                index: 0,
                fault: token_fault(response_body(payload@), ON_OFF_CAPACITY as nat)->0,
            }),
    {
        match parse_token(body_of(payload), ON_OFF_CAPACITY) {
            Ok(on_off) => Ok(Self { on_off }),
            Err(fault) => Err(DecodeError::Field { index: 0, fault }),
        }
    }

    /// The modem answered `ON`.
    pub fn is_on(&self) -> (r: bool)
        ensures
            r == (self.on_off@ == "ON".spec_bytes()),
    {
        same_bytes(self.on_off.as_slice(), "ON".as_bytes())
    }

    /// The modem answered `OFF`.
    pub fn is_off(&self) -> (r: bool)
        ensures
            r == (self.on_off@ == "OFF".spec_bytes()),
    {
        same_bytes(self.on_off.as_slice(), "OFF".as_bytes())
    }
}

/// An error line of the modem, as received.
#[derive(Debug, Clone, PartialEq)]
pub struct ErrorResponse {
    pub error: Vec<u8>,
}

/// What went wrong, in the terms of the modem's manual.
#[derive(Debug, Clone, Copy, PartialEq, Eq, Structural)]
pub enum Error {
    /// `ERROR(-1)`: the command is not known or not well formed.
    AtCommandError,
    /// `ERROR(-2)`: a parameter is out of range.
    AtParameterError,
    /// `ERROR(-3)`: the modem is busy.
    Busy,
    /// `ERROR(-5)`: the network could not be joined.
    CouldNotJoinTheNetwork,
    /// `ERROR(-7)`: the operation timed out.
    Timeout,
    /// Anything else.
    Unknown,
}

/// What went wrong, in the terms of the transport that carries commands to
/// the modem and responses back.
#[derive(Debug, Clone, Copy, PartialEq, Eq, Structural)]
pub enum TransportError {
    /// Reading from the line failed.
    Read,
    /// Writing to the line failed.
    Write,
    /// No response came in time.
    Timeout,
    /// The response does not belong to the command.
    InvalidResponse,
    /// The command was aborted.
    Aborted,
    /// More bytes came than the receive buffer holds.
    Overflow,
    /// The response could not be decoded.
    Parse,
    /// The modem answered with a bare error line.
    Error,
    /// The modem reported an equipment error.
    CmeError,
    /// The modem reported a network error.
    CmsError,
    /// The connection was refused or lost.
    ConnectionError,
    /// The modem answered with an error line of its own kind.
    Custom,
}

/// The error kind that an error literal of the modem stands for.
pub open spec fn error_of_literal(text: Seq<u8>) -> Error {
    if text == "ERROR(-1)".spec_bytes() {
        Error::AtCommandError
    } else if text == "ERROR(-2)".spec_bytes() {
        Error::AtParameterError
    } else if text == "ERROR(-3)".spec_bytes() {
        Error::Busy
    } else if text == "ERROR(-5)".spec_bytes() {
        Error::CouldNotJoinTheNetwork
    } else if text == "ERROR(-7)".spec_bytes() {
        Error::Timeout
    } else {
        Error::Unknown
    }
}

/// The transport error that comes closest to an error literal of the modem.
/// Several literals share one transport error.
pub open spec fn transport_error_of_literal(text: Seq<u8>) -> TransportError {
    if text == "ERROR(-2)".spec_bytes() {
        TransportError::Parse
    } else if text == "ERROR(-3)".spec_bytes() {
        TransportError::Overflow
    } else if text == "ERROR(-7)".spec_bytes() {
        TransportError::Timeout
    } else {
        TransportError::Error
    }
}

/// The error kind under which a transport error is reported.
pub open spec fn error_of_transport(e: TransportError) -> Error {
    match e {
        TransportError::Read => Error::AtCommandError,
        TransportError::Write => Error::AtCommandError,
        TransportError::Timeout => Error::Timeout,
        TransportError::InvalidResponse => Error::AtCommandError,
        TransportError::Aborted => Error::AtCommandError,
        TransportError::Overflow => Error::Busy,
        TransportError::Parse => Error::AtParameterError,
        TransportError::Error => Error::AtParameterError,
        TransportError::CmeError => Error::Unknown,
        TransportError::CmsError => Error::Unknown,
        TransportError::ConnectionError => Error::CouldNotJoinTheNetwork,
        TransportError::Custom => Error::Unknown,
    }
}

/// The error kind that the error literal `text` stands for.
pub fn error_kind_of(text: &[u8]) -> (r: Error)
    ensures
        r == error_of_literal(text@),
{
    if same_bytes(text, "ERROR(-1)".as_bytes()) {
        Error::AtCommandError
    } else if same_bytes(text, "ERROR(-2)".as_bytes()) {
        Error::AtParameterError
    } else if same_bytes(text, "ERROR(-3)".as_bytes()) {
        Error::Busy
    } else if same_bytes(text, "ERROR(-5)".as_bytes()) {
        Error::CouldNotJoinTheNetwork
    } else if same_bytes(text, "ERROR(-7)".as_bytes()) {
        Error::Timeout
    } else {
        Error::Unknown
    }
}

impl ErrorResponse {
    /// Decodes the payload of an error line: its body is the error literal.
    pub fn decode(payload: &[u8]) -> (r: Result<Self, DecodeError>)
        ensures
            r is Ok <==> token_fault(response_body(payload@), ERROR_CAPACITY as nat) is None,
            r matches Ok(v) ==> v.error@ == response_body(payload@),
            r matches Err(e) ==> e == (DecodeError::Field {
                index: 0,
                fault: token_fault(response_body(payload@), ERROR_CAPACITY as nat)->0,
            }),
    {
        match parse_token(body_of(payload), ERROR_CAPACITY) {
            Ok(error) => Ok(Self { error }),
            Err(fault) => Err(DecodeError::Field { index: 0, fault }),
        }
    }

    /// The error kind that this line stands for.
    pub fn kind(&self) -> (r: Error)
        ensures
            r == error_of_literal(self.error@),
    {
        error_kind_of(self.error.as_slice())
    }

    /// The transport error under which this line is passed on.
    pub fn transport_error(&self) -> (r: TransportError)
        ensures
            r == transport_error_of_literal(self.error@),
    {
        let text = self.error.as_slice();
        if same_bytes(text, "ERROR(-2)".as_bytes()) {
            TransportError::Parse
        } else if same_bytes(text, "ERROR(-3)".as_bytes()) {
            TransportError::Overflow
        } else if same_bytes(text, "ERROR(-7)".as_bytes()) {
            TransportError::Timeout
        } else {
            TransportError::Error
        }
    }
}

impl From<ErrorResponse> for Error {
    fn from(value: ErrorResponse) -> (r: Error) {
        value.kind()
    }
}

impl FromSpecImpl<ErrorResponse> for Error {
    open spec fn obeys_from_spec() -> bool {
        true
    }

    open spec fn from_spec(value: ErrorResponse) -> Error {
        error_of_literal(value.error@)
    }
}

impl From<ErrorResponse> for TransportError {
    fn from(value: ErrorResponse) -> (r: TransportError) {
        value.transport_error()
    }
}

impl FromSpecImpl<ErrorResponse> for TransportError {
    open spec fn obeys_from_spec() -> bool {
        true
    }

    open spec fn from_spec(value: ErrorResponse) -> TransportError {
        transport_error_of_literal(value.error@)
    }
}

impl From<TransportError> for Error {
    fn from(value: TransportError) -> (r: Error) {
        match value {
            TransportError::Read => Error::AtCommandError,
            TransportError::Write => Error::AtCommandError,
            TransportError::Timeout => Error::Timeout,
            TransportError::InvalidResponse => Error::AtCommandError,
            TransportError::Aborted => Error::AtCommandError,
            TransportError::Overflow => Error::Busy,
            TransportError::Parse => Error::AtParameterError,
            TransportError::Error => Error::AtParameterError,
            TransportError::CmeError => Error::Unknown,
            TransportError::CmsError => Error::Unknown,
            TransportError::ConnectionError => Error::CouldNotJoinTheNetwork,
            TransportError::Custom => Error::Unknown,
        }
    }
}

impl FromSpecImpl<TransportError> for Error {
    open spec fn obeys_from_spec() -> bool {
        true
    }

    open spec fn from_spec(value: TransportError) -> Error {
        error_of_transport(value)
    }
}

impl Error {
    /// The name of the error kind, for messages and logs.
    pub fn name(&self) -> (r: &'static str)
        ensures
            r@ == match *self {
                Error::AtCommandError => "AtCommandError"@,
                Error::AtParameterError => "AtParameterError"@,
                Error::Busy => "Busy"@,
                Error::CouldNotJoinTheNetwork => "CouldNotJoinTheNetwork"@,
                Error::Timeout => "Timeout"@,
                Error::Unknown => "Unknown"@,
            },
    {
        match self {
            Error::AtCommandError => "AtCommandError",
            Error::AtParameterError => "AtParameterError",
            Error::Busy => "Busy",
            Error::CouldNotJoinTheNetwork => "CouldNotJoinTheNetwork",
            Error::Timeout => "Timeout",
            Error::Unknown => "Unknown",
        }
    }
}

/// The application identifier, as the modem reports it.
#[derive(Debug, Clone, Copy, PartialEq, Eq, Structural)]
pub struct AppEui {
    pub app_eui: u64,
}

impl AppEui {
    /// Decodes the payload of an identifier: its body is the identifier in
    /// byte groups.
    pub fn decode(payload: &[u8]) -> (r: Result<Self, DecodeError>)
        ensures
            r is Ok <==> hex_fault(response_body(payload@), 8, GROUP_DELIMITER) is None,
            r matches Ok(v) ==> response_body(payload@) == hex_groups(
                v.app_eui as nat,
                8,
                GROUP_DELIMITER,
            ),
            r matches Err(e) ==> e == (DecodeError::Field {
                index: 0,
                fault: hex_fault(response_body(payload@), 8, GROUP_DELIMITER)->0,
            }),
    {
        match decode_hex_u64(body_of(payload), GROUP_DELIMITER) {
            Ok(app_eui) => Ok(Self { app_eui }),
            Err(fault) => Err(DecodeError::Field { index: 0, fault }),
        }
    }
}

/// The text is one of the five error literals of the modem.
pub open spec fn is_error_literal(text: Seq<u8>) -> bool {
    ||| text == "ERROR(-1)".spec_bytes()
    ||| text == "ERROR(-2)".spec_bytes()
    ||| text == "ERROR(-3)".spec_bytes()
    ||| text == "ERROR(-5)".spec_bytes()
    ||| text == "ERROR(-7)".spec_bytes()
}

/// The five error literals are five different texts, so each stands for an
/// error kind of its own, and none of them for `Unknown`.
pub proof fn lemma_error_literals_distinct()
    ensures
        error_of_literal("ERROR(-1)".spec_bytes()) == Error::AtCommandError,
        error_of_literal("ERROR(-2)".spec_bytes()) == Error::AtParameterError,
        error_of_literal("ERROR(-3)".spec_bytes()) == Error::Busy,
        error_of_literal("ERROR(-5)".spec_bytes()) == Error::CouldNotJoinTheNetwork,
        error_of_literal("ERROR(-7)".spec_bytes()) == Error::Timeout,
{
    lemma_error_literal_bytes();
}

/// A text stands for `Unknown` if and only if it is none of the five error
/// literals.
pub proof fn lemma_unknown_error(text: Seq<u8>)
    ensures
        error_of_literal(text) == Error::Unknown <==> !is_error_literal(text),
{
    lemma_error_literals_distinct();
}

/// The bytes of the five error literals.
pub proof fn lemma_error_literal_bytes()
    ensures
        "ERROR(-1)".spec_bytes() == seq![0x45u8, 0x52, 0x52, 0x4F, 0x52, 0x28, 0x2D, 0x31, 0x29],
        "ERROR(-2)".spec_bytes() == seq![0x45u8, 0x52, 0x52, 0x4F, 0x52, 0x28, 0x2D, 0x32, 0x29],
        "ERROR(-3)".spec_bytes() == seq![0x45u8, 0x52, 0x52, 0x4F, 0x52, 0x28, 0x2D, 0x33, 0x29],
        "ERROR(-5)".spec_bytes() == seq![0x45u8, 0x52, 0x52, 0x4F, 0x52, 0x28, 0x2D, 0x35, 0x29],
        "ERROR(-7)".spec_bytes() == seq![0x45u8, 0x52, 0x52, 0x4F, 0x52, 0x28, 0x2D, 0x37, 0x29],
{
    reveal_strlit("ERROR(-1)");
    reveal_strlit("ERROR(-2)");
    reveal_strlit("ERROR(-3)");
    reveal_strlit("ERROR(-5)");
    reveal_strlit("ERROR(-7)");
    vstd::string::is_ascii_spec_bytes("ERROR(-1)");
    vstd::string::is_ascii_spec_bytes("ERROR(-2)");
    vstd::string::is_ascii_spec_bytes("ERROR(-3)");
    vstd::string::is_ascii_spec_bytes("ERROR(-5)");
    vstd::string::is_ascii_spec_bytes("ERROR(-7)");
    assert("ERROR(-1)".spec_bytes() =~= seq![
        0x45u8,
        0x52,
        0x52,
        0x4F,
        0x52,
        0x28,
        0x2D,
        0x31,
        0x29,
    ]);
    assert("ERROR(-2)".spec_bytes() =~= seq![
        0x45u8,
        0x52,
        0x52,
        0x4F,
        0x52,
        0x28,
        0x2D,
        0x32,
        0x29,
    ]);
    assert("ERROR(-3)".spec_bytes() =~= seq![
        0x45u8,
        0x52,
        0x52,
        0x4F,
        0x52,
        0x28,
        0x2D,
        0x33,
        0x29,
    ]);
    assert("ERROR(-5)".spec_bytes() =~= seq![
        0x45u8,
        0x52,
        0x52,
        0x4F,
        0x52,
        0x28,
        0x2D,
        0x35,
        0x29,
    ]);
    assert("ERROR(-7)".spec_bytes() =~= seq![
        0x45u8,
        0x52,
        0x52,
        0x4F,
        0x52,
        0x28,
        0x2D,
        0x37,
        0x29,
    ]);
}

} // verus!
