//! The responses to the LoRaWAN commands.
use vstd::prelude::*;
use vstd::std_specs::convert::FromSpecImpl;
use vstd::string::StringSliceAdditionalSpecFns;
use crate::codec::{
    decimal_fault, decimal_value, decode_hex_u128, decode_hex_u64, fraction_fault,
    fraction_value, hex_fault, hex_groups, hex_string, hex_string_fault, parse_decimal,
    parse_fraction, parse_hex_string, parse_signed, parse_token, signed_fault, signed_value,
    token_fault, Decimal, FieldError, GROUP_DELIMITER,
};
use crate::encoder::{substitute, substituted, COLON, COMMA};
use crate::lora::types::{
    class_of_token, join_mode_of_token, joining_status_of_token, region_of_token, LoraClass,
    LoraJoiningStatus, LoraRegion,
};
use crate::payload::{body_of, fields, response_body, split_fields, DecodeError};
use crate::wire::{match_tag, occurs_at, to_vec, TagMatch};

verus! {

/// The longest join mode that is kept.
pub const JOIN_MODE_CAPACITY: usize = 8;

/// The join mode, as the modem reports it.
#[derive(Debug, Clone, PartialEq)]
pub struct LoraJoinMode {
    pub join_mode: Vec<u8>,
}

impl LoraJoinMode {
    /// Decodes the payload: its body is the token.
    pub fn decode(payload: &[u8]) -> (r: Result<Self, DecodeError>)
        ensures
            r is Ok <==> token_fault(response_body(payload@), JOIN_MODE_CAPACITY as nat) is None,
            r matches Ok(v) ==> v.join_mode@ == response_body(payload@),
            r matches Err(e) ==> e == (DecodeError::Field {
                index: 0,
                fault: token_fault(response_body(payload@), JOIN_MODE_CAPACITY as nat)->0,
            }),
    {
        match parse_token(body_of(payload), JOIN_MODE_CAPACITY) {
            Ok(join_mode) => Ok(Self { join_mode }),
            Err(fault) => Err(DecodeError::Field { index: 0, fault }),
        }
    }
}

impl LoraJoinMode {
    /// The join mode that the token stands for.
    pub fn mode(&self) -> (r: crate::lora::types::LoraJoinMode)
        ensures
            r == join_mode_of_token(self.join_mode@),
    {
        crate::lora::types::LoraJoinMode::from_token(self.join_mode.as_slice())
    }
}

/// The device identifier, as the modem reports it.
#[derive(Debug, Clone, Copy, PartialEq, Eq, Structural)]
pub struct DevEuiGet {
    pub dev_eui: u64,
}

impl DevEuiGet {
    /// Decodes the payload: its body is the value in byte groups.
    pub fn decode(payload: &[u8]) -> (r: Result<Self, DecodeError>)
        ensures
            r is Ok <==> hex_fault(response_body(payload@), 8, GROUP_DELIMITER) is None,
            r matches Ok(v) ==> response_body(payload@) == hex_groups(
                v.dev_eui as nat,
                8,
                GROUP_DELIMITER,
            ),
            r matches Err(e) ==> e == (DecodeError::Field {
                index: 0,
                fault: hex_fault(response_body(payload@), 8, GROUP_DELIMITER)->0,
            }),
    {
        match decode_hex_u64(body_of(payload), GROUP_DELIMITER) {
            Ok(dev_eui) => Ok(Self { dev_eui }),
            Err(fault) => Err(DecodeError::Field { index: 0, fault }),
        }
    }
}

/// The application identifier, as the modem reports it.
#[derive(Debug, Clone, Copy, PartialEq, Eq, Structural)]
pub struct AppEuiGet {
    pub app_eui: u64,
}

impl AppEuiGet {
    /// Decodes the payload: its body is the value in byte groups.
    pub fn decode(payload: &[u8]) -> (r: Result<Self, DecodeError>)
        ensures
            r is Ok <==> hex_fault(response_body(payload@), 8, GROUP_DELIMITER) is None,
            r matches Ok(v) ==> response_body(payload@) == hex_groups(
                v.app_eui as nat,
                8,
                GROUP_DELIMITER,
            ),
            r matches Err(e) ==> e == (DecodeError::Field {
                index: 0,
                fault: hex_fault(response_body(payload@), 8, GROUP_DELIMITER)->0,
            }),
    {
        match decode_hex_u64(body_of(payload), GROUP_DELIMITER) {
            Ok(app_eui) => Ok(Self { app_eui }),
            Err(fault) => Err(DecodeError::Field { index: 0, fault }),
        }
    }
}

/// The application key, as the modem reports it.
#[derive(Debug, Clone, Copy, PartialEq, Eq, Structural)]
pub struct AppKeyGet {
    pub app_key: u128,
}

impl AppKeyGet {
    /// Decodes the payload: its body is the value in byte groups.
    pub fn decode(payload: &[u8]) -> (r: Result<Self, DecodeError>)
        ensures
            r is Ok <==> hex_fault(response_body(payload@), 16, GROUP_DELIMITER) is None,
            r matches Ok(v) ==> response_body(payload@) == hex_groups(
                v.app_key as nat,
                16,
                GROUP_DELIMITER,
            ),
            r matches Err(e) ==> e == (DecodeError::Field {
                index: 0,
                fault: hex_fault(response_body(payload@), 16, GROUP_DELIMITER)->0,
            }),
    {
        match decode_hex_u128(body_of(payload), GROUP_DELIMITER) {
            Ok(app_key) => Ok(Self { app_key }),
            Err(fault) => Err(DecodeError::Field { index: 0, fault }),
        }
    }
}

/// The longest region that is kept.
pub const REGION_CAPACITY: usize = 10;

/// The region, as the modem reports it.
#[derive(Debug, Clone, PartialEq)]
pub struct LoraRegionGet {
    pub region: Vec<u8>,
}

impl LoraRegionGet {
    /// Decodes the payload: its body is the token.
    pub fn decode(payload: &[u8]) -> (r: Result<Self, DecodeError>)
        ensures
            r is Ok <==> token_fault(response_body(payload@), REGION_CAPACITY as nat) is None,
            r matches Ok(v) ==> v.region@ == response_body(payload@),
            r matches Err(e) ==> e == (DecodeError::Field {
                index: 0,
                fault: token_fault(response_body(payload@), REGION_CAPACITY as nat)->0,
            }),
    {
        match parse_token(body_of(payload), REGION_CAPACITY) {
            Ok(region) => Ok(Self { region }),
            Err(fault) => Err(DecodeError::Field { index: 0, fault }),
        }
    }
}

impl From<LoraRegionGet> for LoraRegion {
    fn from(value: LoraRegionGet) -> (r: LoraRegion) {
        LoraRegion::from_token(value.region.as_slice())
    }
}

impl FromSpecImpl<LoraRegionGet> for LoraRegion {
    open spec fn obeys_from_spec() -> bool {
        true
    }

    open spec fn from_spec(value: LoraRegionGet) -> LoraRegion {
        region_of_token(value.region@)
    }
}

/// The longest device class that is kept.
pub const CLASS_CAPACITY: usize = 2;

/// The device class, as the modem reports it.
#[derive(Debug, Clone, PartialEq)]
pub struct LoraClassGet {
    pub class: Vec<u8>,
}

impl LoraClassGet {
    /// Decodes the payload: its body is the token.
    pub fn decode(payload: &[u8]) -> (r: Result<Self, DecodeError>)
        ensures
            r is Ok <==> token_fault(response_body(payload@), CLASS_CAPACITY as nat) is None,
            r matches Ok(v) ==> v.class@ == response_body(payload@),
            r matches Err(e) ==> e == (DecodeError::Field {
                index: 0,
                fault: token_fault(response_body(payload@), CLASS_CAPACITY as nat)->0,
            }),
    {
        match parse_token(body_of(payload), CLASS_CAPACITY) {
            Ok(class) => Ok(Self { class }),
            Err(fault) => Err(DecodeError::Field { index: 0, fault }),
        }
    }
}

impl From<LoraClassGet> for LoraClass {
    fn from(value: LoraClassGet) -> (r: LoraClass) {
        LoraClass::from_token(value.class.as_slice())
    }
}

impl FromSpecImpl<LoraClassGet> for LoraClass {
    open spec fn obeys_from_spec() -> bool {
        true
    }

    open spec fn from_spec(value: LoraClassGet) -> LoraClass {
        class_of_token(value.class@)
    }
}

/// The longest joining status that is kept.
pub const JOINING_CAPACITY: usize = 20;

/// The joining status, as the modem reports it.
#[derive(Debug, Clone, PartialEq)]
pub struct LoraJoinResponse {
    pub joining: Vec<u8>,
}

impl LoraJoinResponse {
    /// Decodes the payload: its body is the token.
    pub fn decode(payload: &[u8]) -> (r: Result<Self, DecodeError>)
        ensures
            r is Ok <==> token_fault(response_body(payload@), JOINING_CAPACITY as nat) is None,
            r matches Ok(v) ==> v.joining@ == response_body(payload@),
            r matches Err(e) ==> e == (DecodeError::Field {
                index: 0,
                fault: token_fault(response_body(payload@), JOINING_CAPACITY as nat)->0,
            }),
    {
        match parse_token(body_of(payload), JOINING_CAPACITY) {
            Ok(joining) => Ok(Self { joining }),
            Err(fault) => Err(DecodeError::Field { index: 0, fault }),
        }
    }
}

impl From<LoraJoinResponse> for LoraJoiningStatus {
    fn from(value: LoraJoinResponse) -> (r: LoraJoiningStatus) {
        LoraJoiningStatus::from_token(value.joining.as_slice())
    }
}

impl FromSpecImpl<LoraJoinResponse> for LoraJoiningStatus {
    open spec fn obeys_from_spec() -> bool {
        true
    }

    open spec fn from_spec(value: LoraJoinResponse) -> LoraJoiningStatus {
        joining_status_of_token(value.joining@)
    }
}

/// The largest payload that can be sent now.
#[derive(Debug, Clone, Copy, PartialEq, Eq, Structural)]
pub struct LoraMaxTxLength {
    pub max: u16,
}

impl LoraMaxTxLength {
    /// Decodes the payload: its body is the number in decimal.
    pub fn decode(payload: &[u8]) -> (r: Result<Self, DecodeError>)
        ensures
            r is Ok <==> decimal_fault(response_body(payload@), 0xFFFF) is None,
            r matches Ok(v) ==> v.max == decimal_value(response_body(payload@)),
            r matches Err(e) ==> e == (DecodeError::Field {
                index: 0,
                fault: decimal_fault(response_body(payload@), 0xFFFF)->0,
            }),
    {
        match parse_decimal(body_of(payload), 0xFFFF) {
            Ok(value) => Ok(Self { max: value as u16 }),
            Err(fault) => Err(DecodeError::Field { index: 0, fault }),
        }
    }
}

/// The data rate, as the modem reports it.
#[derive(Debug, Clone, Copy, PartialEq, Eq, Structural)]
pub struct DrSetResponse {
    pub data_rate: u8,
}

impl DrSetResponse {
    /// Decodes the payload: its body is the number in decimal.
    pub fn decode(payload: &[u8]) -> (r: Result<Self, DecodeError>)
        ensures
            r is Ok <==> decimal_fault(response_body(payload@), 0xFF) is None,
            r matches Ok(v) ==> v.data_rate == decimal_value(response_body(payload@)),
            r matches Err(e) ==> e == (DecodeError::Field {
                index: 0,
                fault: decimal_fault(response_body(payload@), 0xFF)->0,
            }),
    {
        match parse_decimal(body_of(payload), 0xFF) {
            Ok(value) => Ok(Self { data_rate: value as u8 }),
            Err(fault) => Err(DecodeError::Field { index: 0, fault }),
        }
    }
}

/// The count of frames sent.
#[derive(Debug, Clone, Copy, PartialEq, Eq, Structural)]
pub struct UplinkFrameCountResponse {
    pub uplink_frame_count: u32,
}

impl UplinkFrameCountResponse {
    /// Decodes the payload: its body is the number in decimal.
    pub fn decode(payload: &[u8]) -> (r: Result<Self, DecodeError>)
        ensures
            r is Ok <==> decimal_fault(response_body(payload@), 0xFFFF_FFFF) is None,
            r matches Ok(v) ==> v.uplink_frame_count == decimal_value(response_body(payload@)),
            r matches Err(e) ==> e == (DecodeError::Field {
                index: 0,
                fault: decimal_fault(response_body(payload@), 0xFFFF_FFFF)->0,
            }),
    {
        match parse_decimal(body_of(payload), 0xFFFF_FFFF) {
            Ok(value) => Ok(Self { uplink_frame_count: value as u32 }),
            Err(fault) => Err(DecodeError::Field { index: 0, fault }),
        }
    }
}

/// The count of frames received.
#[derive(Debug, Clone, Copy, PartialEq, Eq, Structural)]
pub struct DownlinkFrameCountResponse {
    pub downlink_frame_count: u32,
}

impl DownlinkFrameCountResponse {
    /// Decodes the payload: its body is the number in decimal.
    pub fn decode(payload: &[u8]) -> (r: Result<Self, DecodeError>)
        ensures
            r is Ok <==> decimal_fault(response_body(payload@), 0xFFFF_FFFF) is None,
            r matches Ok(v) ==> v.downlink_frame_count == decimal_value(response_body(payload@)),
            r matches Err(e) ==> e == (DecodeError::Field {
                index: 0,
                fault: decimal_fault(response_body(payload@), 0xFFFF_FFFF)->0,
            }),
    {
        match parse_decimal(body_of(payload), 0xFFFF_FFFF) {
            Ok(value) => Ok(Self { downlink_frame_count: value as u32 }),
            Err(fault) => Err(DecodeError::Field { index: 0, fault }),
        }
    }
}

/// The most bytes that a payload holds.
pub const PAYLOAD_CAPACITY: usize = 256;

/// The longest response to a send command that is kept.
pub const SEND_RESPONSE_CAPACITY: usize = 1044;

/// The longest response to a receive command that is kept.
pub const RECEIVE_RESPONSE_CAPACITY: usize = 1060;

/// The longest acknowledgement marker that is kept.
pub const ACK_CAPACITY: usize = 6;

/// What is wrong with `body` as a raw response of at most `capacity` bytes,
/// if anything: it is too long. An empty body is in order.
pub open spec fn raw_fault(body: Seq<u8>, capacity: nat) -> Option<FieldError> {
    if body.len() > capacity {
        Some(FieldError::Length)
    } else {
        None
    }
}

fn decode_raw(payload: &[u8], capacity: usize) -> (r: Result<Vec<u8>, DecodeError>)
    ensures
        r is Ok <==> raw_fault(response_body(payload@), capacity as nat) is None,
        r matches Ok(v) ==> v@ == response_body(payload@),
        r matches Err(e) ==> e == (DecodeError::Field { index: 0, fault: FieldError::Length }),
{
    let body = body_of(payload);
    if body.len() > capacity {
        Err(DecodeError::Field { index: 0, fault: FieldError::Length })
    } else {
        Ok(to_vec(body))
    }
}

/// The fields of a response whose fields the modem separates by colons: the
/// colons are replaced by commas, and the text is split at the commas.
pub open spec fn colon_fields(raw: Seq<u8>) -> Seq<Seq<u8>> {
    fields(substituted(raw, COLON, COMMA), COMMA)
}

/// The response to a send command, as received: its fields are separated by
/// colons and not yet told apart.
#[derive(Debug, Clone, PartialEq)]
pub struct LoraSendBytesResponseUnprocessed {
    pub val: Vec<u8>,
}

/// The response to a send command: what the modem sent.
#[derive(Debug, Clone, PartialEq)]
pub struct LoraSendBytesResponse {
    pub retransmission_times: u8,
    pub port: u8,
    pub data: Vec<u8>,
}

/// What is wrong with `raw` as the response to a send command, if anything.
/// The response has three fields: the number of retransmissions and the port,
/// both in decimal, and the payload in hexadecimal.
pub open spec fn send_response_fault(raw: Seq<u8>) -> Option<DecodeError> {
    let f = colon_fields(raw);
    if f.len() != 3 {
        Some(DecodeError::FieldCount)
    } else if decimal_fault(f[0], 0xFF) is Some {
        Some(DecodeError::Field { index: 0, fault: decimal_fault(f[0], 0xFF)->0 })
    } else if decimal_fault(f[1], 0xFF) is Some {
        Some(DecodeError::Field { index: 1, fault: decimal_fault(f[1], 0xFF)->0 })
    } else if hex_string_fault(f[2], PAYLOAD_CAPACITY as nat) is Some {
        Some(
            DecodeError::Field {
                index: 2,
                fault: hex_string_fault(f[2], PAYLOAD_CAPACITY as nat)->0,
            },
        )
    } else {
        None
    }
}

impl LoraSendBytesResponseUnprocessed {
    /// Decodes the payload: its body is the response as it stands.
    pub fn decode(payload: &[u8]) -> (r: Result<Self, DecodeError>)
        ensures
            r is Ok <==> raw_fault(response_body(payload@), SEND_RESPONSE_CAPACITY as nat) is None,
            r matches Ok(v) ==> v.val@ == response_body(payload@),
            r matches Err(e) ==> e == (DecodeError::Field { index: 0, fault: FieldError::Length }),
    {
        match decode_raw(payload, SEND_RESPONSE_CAPACITY) {
            Ok(val) => Ok(Self { val }),
            Err(e) => Err(e),
        }
    }

    /// Tells the fields of the response apart.
    pub fn processed(self) -> (r: Result<LoraSendBytesResponse, DecodeError>)
        ensures
            r is Ok <==> send_response_fault(self.val@) is None,
            r matches Ok(v) ==> {
                let f = colon_fields(self.val@);
                &&& v.retransmission_times == decimal_value(f[0])
                &&& v.port == decimal_value(f[1])
                &&& f[2] == hex_string(v.data@)
            },
            r matches Err(e) ==> send_response_fault(self.val@) == Some(e),
    {
        let mut text = self.val;
        substitute(&mut text, COLON, COMMA);
        let parts = split_fields(text.as_slice(), COMMA);
        if parts.len() != 3 {
            return Err(DecodeError::FieldCount);
        }
        let retransmission_times = match parse_decimal(parts[0], 0xFF) {
            Ok(v) => v as u8,
            Err(fault) => {
                return Err(DecodeError::Field { index: 0, fault });
            },
        };
        let port = match parse_decimal(parts[1], 0xFF) {
            Ok(v) => v as u8,
            Err(fault) => {
                return Err(DecodeError::Field { index: 1, fault });
            },
        };
        let data = match parse_hex_string(parts[2], PAYLOAD_CAPACITY) {
            Ok(v) => v,
            Err(fault) => {
                return Err(DecodeError::Field { index: 2, fault });
            },
        };
        Ok(LoraSendBytesResponse { retransmission_times, port, data })
    }
}

/// The response to a receive command, as received: its fields are separated
/// by colons and not yet told apart.
#[derive(Debug, Clone, PartialEq)]
pub struct LoraReceivedBytesResponseRaw {
    pub value: Vec<u8>,
}

/// The server acknowledged the last uplink.
#[derive(Debug, Clone, PartialEq)]
pub struct LoraReceivedBytesAckResponse {
    /// The signal strength.
    pub rssi: i32,
    /// The signal to noise ratio.
    pub snr: Decimal,
    pub ack: Vec<u8>,
}

/// The server sent data.
#[derive(Debug, Clone, PartialEq)]
pub struct LoraReceivedBytesDataResponse {
    /// The signal strength.
    pub rssi: i32,
    /// The signal to noise ratio.
    pub snr: Decimal,
    pub port: u8,
    pub length: u16,
    pub data: Vec<u8>,
}

/// What the server sent last.
#[derive(Debug, Clone, PartialEq)]
pub enum LoraReceivedBytes {
    /// Nothing came.
    NoData,
    Ack(LoraReceivedBytesAckResponse),
    Data(LoraReceivedBytesDataResponse),
}

/// What ends a response that reports an acknowledgement, once its colons are
/// replaced by commas.
pub open spec fn ack_marker() -> Seq<u8> {
    ",ACK".spec_bytes()
}

/// `text` ends with the acknowledgement marker.
pub open spec fn ends_with_ack(text: Seq<u8>) -> bool {
    occurs_at(text, ack_marker(), text.len() - ack_marker().len())
}

/// What is wrong with the first two fields of a response to a receive
/// command, if anything: the signal strength is a signed number, the signal
/// to noise ratio a decimal fraction.
pub open spec fn signal_fault(f: Seq<Seq<u8>>) -> Option<DecodeError> {
    if signed_fault(f[0]) is Some {
        Some(DecodeError::Field { index: 0, fault: signed_fault(f[0])->0 })
    } else if fraction_fault(f[1]) is Some {
        Some(DecodeError::Field { index: 1, fault: fraction_fault(f[1])->0 })
    } else {
        None
    }
}

/// What is wrong with `f` as the fields of an acknowledgement, if anything.
/// An acknowledgement has three fields: signal strength, signal to noise
/// ratio and the marker.
pub open spec fn ack_fault(f: Seq<Seq<u8>>) -> Option<DecodeError> {
    if f.len() != 3 {
        Some(DecodeError::FieldCount)
    } else if signal_fault(f) is Some {
        signal_fault(f)
    } else if token_fault(f[2], ACK_CAPACITY as nat) is Some {
        Some(DecodeError::Field { index: 2, fault: token_fault(f[2], ACK_CAPACITY as nat)->0 })
    } else {
        None
    }
}

/// What is wrong with `f` as the fields of received data, if anything.
/// Received data has five fields: signal strength, signal to noise ratio,
/// port and length in decimal, and the payload in hexadecimal.
pub open spec fn data_fault(f: Seq<Seq<u8>>) -> Option<DecodeError> {
    if f.len() != 5 {
        Some(DecodeError::FieldCount)
    } else if signal_fault(f) is Some {
        signal_fault(f)
    } else if decimal_fault(f[2], 0xFF) is Some {
        Some(DecodeError::Field { index: 2, fault: decimal_fault(f[2], 0xFF)->0 })
    } else if decimal_fault(f[3], 0xFFFF) is Some {
        Some(DecodeError::Field { index: 3, fault: decimal_fault(f[3], 0xFFFF)->0 })
    } else if hex_string_fault(f[4], PAYLOAD_CAPACITY as nat) is Some {
        Some(
            DecodeError::Field {
                index: 4,
                fault: hex_string_fault(f[4], PAYLOAD_CAPACITY as nat)->0,
            },
        )
    } else {
        None
    }
}

/// What is wrong with `raw` as the response to a receive command, if
/// anything. An empty response is in order: it says that nothing came. A
/// response that ends with the acknowledgement marker is held to the shape of
/// an acknowledgement, every other to the shape of received data.
pub open spec fn received_fault(raw: Seq<u8>) -> Option<DecodeError> {
    if raw.len() == 0 {
        None
    } else if ends_with_ack(substituted(raw, COLON, COMMA)) {
        ack_fault(colon_fields(raw))
    } else {
        data_fault(colon_fields(raw))
    }
}

/// `r` is what the response `raw` says.
pub open spec fn received_is(r: LoraReceivedBytes, raw: Seq<u8>) -> bool {
    let f = colon_fields(raw);
    match r {
        LoraReceivedBytes::NoData => raw.len() == 0,
        LoraReceivedBytes::Ack(a) => {
            &&& raw.len() > 0
            &&& ends_with_ack(substituted(raw, COLON, COMMA))
            &&& a.rssi == signed_value(f[0])
            &&& a.snr == fraction_value(f[1])
            &&& a.ack@ == f[2]
        },
        LoraReceivedBytes::Data(d) => {
            &&& raw.len() > 0
            &&& !ends_with_ack(substituted(raw, COLON, COMMA))
            &&& d.rssi == signed_value(f[0])
            &&& d.snr == fraction_value(f[1])
            &&& d.port == decimal_value(f[2])
            &&& d.length == decimal_value(f[3])
            &&& f[4] == hex_string(d.data@)
        },
    }
}

fn decode_ack(parts: &Vec<&[u8]>) -> (r: Result<LoraReceivedBytesAckResponse, DecodeError>)
    ensures
        r is Ok <==> ack_fault(parts@.map_values(|p: &[u8]| p@)) is None,
        r matches Ok(a) ==> {
            &&& a.rssi == signed_value(parts@[0]@)
            &&& a.snr == fraction_value(parts@[1]@)
            &&& a.ack@ == parts@[2]@
        },
        r matches Err(e) ==> ack_fault(parts@.map_values(|p: &[u8]| p@)) == Some(e),
{
    if parts.len() != 3 {
        return Err(DecodeError::FieldCount);
    }
    let rssi = match parse_signed(parts[0]) {
        Ok(v) => v,
        Err(fault) => {
            return Err(DecodeError::Field { index: 0, fault });
        },
    };
    let snr = match parse_fraction(parts[1]) {
        Ok(v) => v,
        Err(fault) => {
            return Err(DecodeError::Field { index: 1, fault });
        },
    };
    let ack = match parse_token(parts[2], ACK_CAPACITY) {
        Ok(v) => v,
        Err(fault) => {
            return Err(DecodeError::Field { index: 2, fault });
        },
    };
    Ok(LoraReceivedBytesAckResponse { rssi, snr, ack })
}

fn decode_data(parts: &Vec<&[u8]>) -> (r: Result<LoraReceivedBytesDataResponse, DecodeError>)
    ensures
        r is Ok <==> data_fault(parts@.map_values(|p: &[u8]| p@)) is None,
        r matches Ok(d) ==> {
            &&& d.rssi == signed_value(parts@[0]@)
            &&& d.snr == fraction_value(parts@[1]@)
            &&& d.port == decimal_value(parts@[2]@)
            &&& d.length == decimal_value(parts@[3]@)
            &&& parts@[4]@ == hex_string(d.data@)
        },
        r matches Err(e) ==> data_fault(parts@.map_values(|p: &[u8]| p@)) == Some(e),
{
    if parts.len() != 5 {
        return Err(DecodeError::FieldCount);
    }
    let rssi = match parse_signed(parts[0]) {
        Ok(v) => v,
        Err(fault) => {
            return Err(DecodeError::Field { index: 0, fault });
        },
    };
    let snr = match parse_fraction(parts[1]) {
        Ok(v) => v,
        Err(fault) => {
            return Err(DecodeError::Field { index: 1, fault });
        },
    };
    let port = match parse_decimal(parts[2], 0xFF) {
        Ok(v) => v as u8,
        Err(fault) => {
            return Err(DecodeError::Field { index: 2, fault });
        },
    };
    let length = match parse_decimal(parts[3], 0xFFFF) {
        Ok(v) => v as u16,
        Err(fault) => {
            return Err(DecodeError::Field { index: 3, fault });
        },
    };
    let data = match parse_hex_string(parts[4], PAYLOAD_CAPACITY) {
        Ok(v) => v,
        Err(fault) => {
            return Err(DecodeError::Field { index: 4, fault });
        },
    };
    Ok(LoraReceivedBytesDataResponse { rssi, snr, port, length, data })
}

impl LoraReceivedBytesResponseRaw {
    /// Decodes the payload: its body is the response as it stands.
    pub fn decode(payload: &[u8]) -> (r: Result<Self, DecodeError>)
        ensures
            r is Ok <==> raw_fault(response_body(payload@), RECEIVE_RESPONSE_CAPACITY as nat)
                is None,
            r matches Ok(v) ==> v.value@ == response_body(payload@),
            r matches Err(e) ==> e == (DecodeError::Field { index: 0, fault: FieldError::Length }),
    {
        match decode_raw(payload, RECEIVE_RESPONSE_CAPACITY) {
            Ok(value) => Ok(Self { value }),
            Err(e) => Err(e),
        }
    }

    /// Tells what the response says: nothing, an acknowledgement or data.
    pub fn processed(self) -> (r: Result<LoraReceivedBytes, DecodeError>)
        ensures
            r is Ok <==> received_fault(self.value@) is None,
            r matches Ok(v) ==> received_is(v, self.value@),
            r matches Err(e) ==> received_fault(self.value@) == Some(e),
    {
        if self.value.len() == 0 {
            return Ok(LoraReceivedBytes::NoData);
        }
        let mut text = self.value;
        substitute(&mut text, COLON, COMMA);
        let marker = ",ACK".as_bytes();
        let is_ack = if text.len() >= marker.len() {
            let at: usize = text.len() - marker.len();
            match match_tag(text.as_slice(), at, marker) {
                TagMatch::Matched => true,
                _ => false,
            }
        } else {
            false
        };
        let parts = split_fields(text.as_slice(), COMMA);
        proof {
            assert(parts@.map_values(|p: &[u8]| p@) =~= colon_fields(self.value@));
            assert(marker@.subrange(0, marker@.len() as int) =~= marker@);
        }
        if is_ack {
            match decode_ack(&parts) {
                Ok(a) => Ok(LoraReceivedBytes::Ack(a)),
                Err(e) => Err(e),
            }
        } else {
            match decode_data(&parts) {
                Ok(d) => Ok(LoraReceivedBytes::Data(d)),
                Err(e) => Err(e),
            }
        }
    }
}

} // verus!
