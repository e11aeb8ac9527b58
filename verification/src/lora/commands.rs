//! The LoRaWAN commands.
use vstd::prelude::*;
use vstd::slice::slice_subrange;
use vstd::string::StringSliceAdditionalSpecFns;
use crate::codec::{
    decimal_digits, encode_hex_u128, encode_hex_u64, hex_groups, hex_string,
    lemma_decimal_digits_len, lemma_decimal_round_trip, lemma_hex_string_well_formed,
    write_decimal, write_hex_string, GROUP_DELIMITER,
};
use crate::encoder::{
    encode_plain, encode_query, encode_set, plain_line, query_line, set_line, substitute,
    substituted, COLON, COMMA,
};
use crate::lora::types::{
    class_token, join_mode_token, region_token, LoraClass, LoraJoinMode, LoraRegion,
};
use crate::wire::to_vec;

verus! {

/// Asks for the join mode.
#[derive(Clone, Debug)]
pub struct JoinModeGet {}

impl JoinModeGet {
    /// The command line.
    pub fn as_bytes(&self) -> (line: Vec<u8>)
        ensures
            line@ == query_line("+JOIN_MODE".spec_bytes()),
            line@.len() == 16,
    {
        proof {
            reveal_strlit("+JOIN_MODE");
            vstd::string::is_ascii_spec_bytes("+JOIN_MODE");
        }
        encode_query("+JOIN_MODE")
    }
}

/// Sets the join mode.
#[derive(Clone, Debug)]
pub struct JoinModeSet {
    pub join_mode: Vec<u8>,
}

impl JoinModeSet {
    /// The command that selects over the air activation.
    pub fn otaa() -> (r: Self)
        ensures
            r.join_mode@ == join_mode_token(LoraJoinMode::Otaa),
    {
        Self { join_mode: LoraJoinMode::Otaa.token() }
    }

    /// The command that selects activation by personalisation.
    pub fn abp() -> (r: Self)
        ensures
            r.join_mode@ == join_mode_token(LoraJoinMode::Abp),
    {
        Self { join_mode: LoraJoinMode::Abp.token() }
    }

    /// The command that selects `mode`, or `None` where `mode` is not one
    /// that can be selected.
    pub fn for_mode(mode: LoraJoinMode) -> (r: Option<Self>)
        ensures
            mode is Unknown <==> r is None,
            r matches Some(cmd) ==> cmd.join_mode@ == join_mode_token(mode),
    {
        match mode {
            LoraJoinMode::Otaa => Some(Self::otaa()),
            LoraJoinMode::Abp => Some(Self::abp()),
            LoraJoinMode::Unknown => None,
        }
    }

    /// The command line.
    pub fn as_bytes(&self) -> (line: Vec<u8>)
        ensures
            line@ == set_line("+JOIN_MODE".spec_bytes(), self.join_mode@),
            line@.len() == 15 + self.join_mode@.len(),
    {
        proof {
            reveal_strlit("+JOIN_MODE");
            vstd::string::is_ascii_spec_bytes("+JOIN_MODE");
        }
        encode_set("+JOIN_MODE", self.join_mode.as_slice())
    }
}

/// Asks for the device identifier.
#[derive(Clone, Debug)]
pub struct DevEuiGet {}

impl DevEuiGet {
    /// The command line.
    pub fn as_bytes(&self) -> (line: Vec<u8>)
        ensures
            line@ == query_line("+DEVEUI".spec_bytes()),
            line@.len() == 13,
    {
        proof {
            reveal_strlit("+DEVEUI");
            vstd::string::is_ascii_spec_bytes("+DEVEUI");
        }
        encode_query("+DEVEUI")
    }
}

/// Sets the device identifier.
#[derive(Clone, Copy, Debug)]
pub struct DevEuiSet {
    pub dev_eui: u64,
}

impl DevEuiSet {
    /// The command that sets the identifier to `val`.
    pub fn dev_eui(val: u64) -> (r: Self)
        ensures
            r.dev_eui == val,
    {
        Self { dev_eui: val }
    }

    /// The command line. The identifier is written in byte groups.
    pub fn as_bytes(&self) -> (line: Vec<u8>)
        ensures
            line@ == set_line(
                "+DEVEUI".spec_bytes(),
                hex_groups(self.dev_eui as nat, 8, GROUP_DELIMITER),
            ),
            line@.len() == 35,
    {
        proof {
            reveal_strlit("+DEVEUI");
            vstd::string::is_ascii_spec_bytes("+DEVEUI");
        }
        let text = encode_hex_u64(self.dev_eui, GROUP_DELIMITER);
        encode_set("+DEVEUI", text.as_slice())
    }
}

/// Asks for the application identifier.
#[derive(Clone, Debug)]
pub struct AppEuiGet {}

impl AppEuiGet {
    /// The command line.
    pub fn as_bytes(&self) -> (line: Vec<u8>)
        ensures
            line@ == query_line("+APPEUI".spec_bytes()),
            line@.len() == 13,
    {
        proof {
            reveal_strlit("+APPEUI");
            vstd::string::is_ascii_spec_bytes("+APPEUI");
        }
        encode_query("+APPEUI")
    }
}

/// Sets the application identifier.
#[derive(Clone, Copy, Debug)]
pub struct AppEuiSet {
    pub app_eui: u64,
}

impl AppEuiSet {
    /// The command that sets the identifier to `val`.
    pub fn app_eui(val: u64) -> (r: Self)
        ensures
            r.app_eui == val,
    {
        Self { app_eui: val }
    }

    /// The command line. The identifier is written in byte groups.
    pub fn as_bytes(&self) -> (line: Vec<u8>)
        ensures
            line@ == set_line(
                "+APPEUI".spec_bytes(),
                hex_groups(self.app_eui as nat, 8, GROUP_DELIMITER),
            ),
            line@.len() == 35,
    {
        proof {
            reveal_strlit("+APPEUI");
            vstd::string::is_ascii_spec_bytes("+APPEUI");
        }
        let text = encode_hex_u64(self.app_eui, GROUP_DELIMITER);
        encode_set("+APPEUI", text.as_slice())
    }
}

/// Asks for the application key.
#[derive(Clone, Debug)]
pub struct AppKeyGet {}

impl AppKeyGet {
    /// The command line.
    pub fn as_bytes(&self) -> (line: Vec<u8>)
        ensures
            line@ == query_line("+APPKEY".spec_bytes()),
            line@.len() == 13,
    {
        proof {
            reveal_strlit("+APPKEY");
            vstd::string::is_ascii_spec_bytes("+APPKEY");
        }
        encode_query("+APPKEY")
    }
}

/// Sets the application key.
#[derive(Clone, Copy, Debug)]
pub struct AppKeySet {
    pub app_key: u128,
}

impl AppKeySet {
    /// The command that sets the key to `val`.
    pub fn app_key(val: u128) -> (r: Self)
        ensures
            r.app_key == val,
    {
        Self { app_key: val }
    }

    /// The command line. The key is written in byte groups.
    pub fn as_bytes(&self) -> (line: Vec<u8>)
        ensures
            line@ == set_line(
                "+APPKEY".spec_bytes(),
                hex_groups(self.app_key as nat, 16, GROUP_DELIMITER),
            ),
            line@.len() == 59,
    {
        proof {
            reveal_strlit("+APPKEY");
            vstd::string::is_ascii_spec_bytes("+APPKEY");
        }
        let text = encode_hex_u128(self.app_key, GROUP_DELIMITER);
        encode_set("+APPKEY", text.as_slice())
    }
}

/// Asks for the region.
#[derive(Clone, Debug)]
pub struct LoraRegionGet {}

impl LoraRegionGet {
    /// The command line.
    pub fn as_bytes(&self) -> (line: Vec<u8>)
        ensures
            line@ == query_line("+REGION".spec_bytes()),
            line@.len() == 13,
    {
        proof {
            reveal_strlit("+REGION");
            vstd::string::is_ascii_spec_bytes("+REGION");
        }
        encode_query("+REGION")
    }
}

/// Sets the region.
#[derive(Clone, Debug)]
pub struct LoraRegionSet {
    pub region: Vec<u8>,
}

impl LoraRegionSet {
    /// The command that selects `region`.
    pub fn region(region: LoraRegion) -> (r: Self)
        ensures
            r.region@ == region_token(region),
    {
        region.set_cmd()
    }

    /// The command line.
    pub fn as_bytes(&self) -> (line: Vec<u8>)
        ensures
            line@ == set_line("+REGION".spec_bytes(), self.region@),
            line@.len() == 12 + self.region@.len(),
    {
        proof {
            reveal_strlit("+REGION");
            vstd::string::is_ascii_spec_bytes("+REGION");
        }
        encode_set("+REGION", self.region.as_slice())
    }
}

impl LoraRegion {
    /// The command that selects this region.
    pub fn set_cmd(self) -> (r: LoraRegionSet)
        ensures
            r.region@ == region_token(self),
    {
        LoraRegionSet { region: self.token() }
    }
}

/// Asks for the device class.
#[derive(Clone, Debug)]
pub struct LoraClassGet {}

impl LoraClassGet {
    /// The command line.
    pub fn as_bytes(&self) -> (line: Vec<u8>)
        ensures
            line@ == query_line("+CLASS".spec_bytes()),
            line@.len() == 12,
    {
        proof {
            reveal_strlit("+CLASS");
            vstd::string::is_ascii_spec_bytes("+CLASS");
        }
        encode_query("+CLASS")
    }
}

/// Sets the device class.
#[derive(Clone, Debug)]
pub struct LoraClassSet {
    pub class: Vec<u8>,
}

impl LoraClassSet {
    /// The command that selects `class`.
    pub fn class(class: LoraClass) -> (r: Self)
        ensures
            r.class@ == class_token(class),
    {
        class.set_cmd()
    }

    /// The command line.
    pub fn as_bytes(&self) -> (line: Vec<u8>)
        ensures
            line@ == set_line("+CLASS".spec_bytes(), self.class@),
            line@.len() == 11 + self.class@.len(),
    {
        proof {
            reveal_strlit("+CLASS");
            vstd::string::is_ascii_spec_bytes("+CLASS");
        }
        encode_set("+CLASS", self.class.as_slice())
    }
}

impl LoraClass {
    /// The command that selects this device class.
    pub fn set_cmd(self) -> (r: LoraClassSet)
        ensures
            r.class@ == class_token(self),
    {
        LoraClassSet { class: self.token() }
    }
}

/// Starts joining the network over the air.
#[derive(Clone, Debug)]
pub struct LoraJoinOtaa {}

impl LoraJoinOtaa {
    /// The command line.
    pub fn as_bytes(&self) -> (line: Vec<u8>)
        ensures
            line@ == plain_line("+JOINING".spec_bytes()),
            line@.len() == 12,
    {
        proof {
            reveal_strlit("+JOINING");
            vstd::string::is_ascii_spec_bytes("+JOINING");
        }
        encode_plain("+JOINING")
    }
}

/// Asks how far joining has come.
#[derive(Clone, Debug)]
pub struct LoraJoinOtaaStatus {}

impl LoraJoinOtaaStatus {
    /// The command line.
    pub fn as_bytes(&self) -> (line: Vec<u8>)
        ensures
            line@ == query_line("+JOIN_STD".spec_bytes()),
            line@.len() == 15,
    {
        proof {
            reveal_strlit("+JOIN_STD");
            vstd::string::is_ascii_spec_bytes("+JOIN_STD");
        }
        encode_query("+JOIN_STD")
    }
}

/// Asks whether the modem joins by itself when it starts.
#[derive(Clone, Debug)]
pub struct LoraAutoJoinGet {}

impl LoraAutoJoinGet {
    /// The command line.
    pub fn as_bytes(&self) -> (line: Vec<u8>)
        ensures
            line@ == query_line("+AUTO_JOIN".spec_bytes()),
            line@.len() == 16,
    {
        proof {
            reveal_strlit("+AUTO_JOIN");
            vstd::string::is_ascii_spec_bytes("+AUTO_JOIN");
        }
        encode_query("+AUTO_JOIN")
    }
}

/// Switches joining at start on or off.
#[derive(Clone, Debug)]
pub struct LoraAutoJoinSet {
    pub on: Vec<u8>,
}

impl LoraAutoJoinSet {
    /// The command that switches joining at start on.
    pub fn on() -> (r: Self)
        ensures
            r.on@ == "ON".spec_bytes(),
    {
        Self { on: to_vec("ON".as_bytes()) }
    }

    /// The command that switches joining at start off.
    pub fn off() -> (r: Self)
        ensures
            r.on@ == "OFF".spec_bytes(),
    {
        Self { on: to_vec("OFF".as_bytes()) }
    }

    /// The command line.
    pub fn as_bytes(&self) -> (line: Vec<u8>)
        ensures
            line@ == set_line("+AUTO_JOIN".spec_bytes(), self.on@),
            line@.len() == 15 + self.on@.len(),
    {
        proof {
            reveal_strlit("+AUTO_JOIN");
            vstd::string::is_ascii_spec_bytes("+AUTO_JOIN");
        }
        encode_set("+AUTO_JOIN", self.on.as_slice())
    }
}

/// Switches the adaptive data rate on or off.
#[derive(Clone, Debug)]
pub struct LoraAdrSet {
    pub on: Vec<u8>,
}

impl LoraAdrSet {
    /// The command that switches the adaptive data rate on.
    pub fn on() -> (r: Self)
        ensures
            r.on@ == "ON".spec_bytes(),
    {
        Self { on: to_vec("ON".as_bytes()) }
    }

    /// The command that switches the adaptive data rate off.
    pub fn off() -> (r: Self)
        ensures
            r.on@ == "OFF".spec_bytes(),
    {
        Self { on: to_vec("OFF".as_bytes()) }
    }

    /// The command line.
    pub fn as_bytes(&self) -> (line: Vec<u8>)
        ensures
            line@ == set_line("+ADR".spec_bytes(), self.on@),
            line@.len() == 9 + self.on@.len(),
    {
        proof {
            reveal_strlit("+ADR");
            vstd::string::is_ascii_spec_bytes("+ADR");
        }
        encode_set("+ADR", self.on.as_slice())
    }
}

/// Sets the data rate, a number from 0 to 15.
#[derive(Clone, Copy, Debug)]
pub struct LoraDrSet {
    pub data_rate: u8,
}

impl LoraDrSet {
    /// The command line. The data rate is written in decimal.
    pub fn as_bytes(&self) -> (line: Vec<u8>)
        ensures
            line@ == set_line("+DR".spec_bytes(), decimal_digits(self.data_rate as nat)),
            9 <= line@.len() <= 11,
    {
        proof {
            reveal_strlit("+DR");
            vstd::string::is_ascii_spec_bytes("+DR");
            lemma_decimal_digits_len(self.data_rate as nat);
        }
        let mut text: Vec<u8> = Vec::new();
        write_decimal(&mut text, self.data_rate as u32);
        assert(text@ =~= decimal_digits(self.data_rate as nat));
        encode_set("+DR", text.as_slice())
    }
}

/// Asks for the largest payload that can be sent now.
#[derive(Clone, Debug)]
pub struct LoraMaxTxLengthGet {}

impl LoraMaxTxLengthGet {
    /// The command line.
    pub fn as_bytes(&self) -> (line: Vec<u8>)
        ensures
            line@ == query_line("+TX_LEN".spec_bytes()),
            line@.len() == 13,
    {
        proof {
            reveal_strlit("+TX_LEN");
            vstd::string::is_ascii_spec_bytes("+TX_LEN");
        }
        encode_query("+TX_LEN")
    }
}

/// Asks whether uplinks are to be confirmed.
#[derive(Clone, Debug)]
pub struct UplinkConfirmGet {}

impl UplinkConfirmGet {
    /// The command line.
    pub fn as_bytes(&self) -> (line: Vec<u8>)
        ensures
            line@ == query_line("+CONFIRM".spec_bytes()),
            line@.len() == 14,
    {
        proof {
            reveal_strlit("+CONFIRM");
            vstd::string::is_ascii_spec_bytes("+CONFIRM");
        }
        encode_query("+CONFIRM")
    }
}

/// Switches the confirmation of uplinks on or off.
#[derive(Clone, Debug)]
pub struct UplinkConfirmSet {
    pub on: Vec<u8>,
}

impl UplinkConfirmSet {
    /// The command that asks for confirmed uplinks.
    pub fn on() -> (r: Self)
        ensures
            r.on@ == "ON".spec_bytes(),
    {
        Self { on: to_vec("ON".as_bytes()) }
    }

    /// The command that asks for unconfirmed uplinks.
    pub fn off() -> (r: Self)
        ensures
            r.on@ == "OFF".spec_bytes(),
    {
        Self { on: to_vec("OFF".as_bytes()) }
    }

    /// The command line.
    pub fn as_bytes(&self) -> (line: Vec<u8>)
        ensures
            line@ == set_line("+CONFIRM".spec_bytes(), self.on@),
            line@.len() == 13 + self.on@.len(),
    {
        proof {
            reveal_strlit("+CONFIRM");
            vstd::string::is_ascii_spec_bytes("+CONFIRM");
        }
        encode_set("+CONFIRM", self.on.as_slice())
    }
}

/// Asks for what the server sent last: data, an acknowledgement or nothing.
#[derive(Clone, Debug)]
pub struct LoraReceiveBytes {}

impl LoraReceiveBytes {
    /// The command line.
    pub fn as_bytes(&self) -> (line: Vec<u8>)
        ensures
            line@ == query_line("+RECVB".spec_bytes()),
            line@.len() == 12,
    {
        proof {
            reveal_strlit("+RECVB");
            vstd::string::is_ascii_spec_bytes("+RECVB");
        }
        encode_query("+RECVB")
    }
}

/// Asks for the count of frames sent.
#[derive(Clone, Debug)]
pub struct UplinkFrameCountGet {}

impl UplinkFrameCountGet {
    /// The command line.
    pub fn as_bytes(&self) -> (line: Vec<u8>)
        ensures
            line@ == query_line("+UP_CNT".spec_bytes()),
            line@.len() == 13,
    {
        proof {
            reveal_strlit("+UP_CNT");
            vstd::string::is_ascii_spec_bytes("+UP_CNT");
        }
        encode_query("+UP_CNT")
    }
}

/// Asks for the count of frames received.
#[derive(Clone, Debug)]
pub struct DownlinkFrameCountGet {}

impl DownlinkFrameCountGet {
    /// The command line.
    pub fn as_bytes(&self) -> (line: Vec<u8>)
        ensures
            line@ == query_line("+DOWN_CNT".spec_bytes()),
            line@.len() == 15,
    {
        proof {
            reveal_strlit("+DOWN_CNT");
            vstd::string::is_ascii_spec_bytes("+DOWN_CNT");
        }
        encode_query("+DOWN_CNT")
    }
}

/// The most bytes of a payload that are sent.
pub const PAYLOAD_CAPACITY: usize = 256;

/// `data` without its trailing zero bytes, of which one is kept if there is
/// nothing else.
pub open spec fn without_trailing_zeros(data: Seq<u8>) -> Seq<u8>
    decreases data.len(),
{
    if data.len() > 1 && data.last() == 0 {
        without_trailing_zeros(data.drop_last())
    } else {
        data
    }
}

/// What is sent of a payload: its first 256 bytes without trailing zero
/// bytes, and one zero byte where that leaves nothing.
pub open spec fn transmitted(data: Seq<u8>) -> Seq<u8> {
    if data.len() == 0 {
        seq![0u8]
    } else if data.len() > PAYLOAD_CAPACITY {
        without_trailing_zeros(data.subrange(0, PAYLOAD_CAPACITY as int))
    } else {
        without_trailing_zeros(data)
    }
}

/// What is sent of a payload is at least one byte and at most 256.
pub proof fn lemma_transmitted_len(data: Seq<u8>)
    ensures
        1 <= transmitted(data).len() <= PAYLOAD_CAPACITY,
        transmitted(data).len() <= data.len() || data.len() == 0,
{
    if data.len() > PAYLOAD_CAPACITY {
        lemma_without_trailing_zeros_len(data.subrange(0, PAYLOAD_CAPACITY as int));
    } else if data.len() > 0 {
        lemma_without_trailing_zeros_len(data);
    }
}

proof fn lemma_without_trailing_zeros_len(data: Seq<u8>)
    requires
        data.len() >= 1,
    ensures
        1 <= without_trailing_zeros(data).len() <= data.len(),
    decreases data.len(),
{
    if data.len() > 1 && data.last() == 0 {
        lemma_without_trailing_zeros_len(data.drop_last());
    }
}

/// The arguments of a send command take up at most 520 bytes.
pub proof fn lemma_send_arguments_len(
    retransmission_times: u8,
    port: u8,
    data: Seq<u8>,
    separator: u8,
)
    ensures
        5 <= send_arguments(retransmission_times, port, data, separator).len() <= 520,
{
    lemma_decimal_digits_len(retransmission_times as nat);
    lemma_decimal_digits_len(port as nat);
    lemma_transmitted_len(data);
    lemma_hex_string_well_formed(transmitted(data));
}

/// The arguments of a send command: the number of retransmissions and the
/// port in decimal and the payload in hexadecimal, with `separator` between
/// them.
pub open spec fn send_arguments(
    retransmission_times: u8,
    port: u8,
    data: Seq<u8>,
    separator: u8,
) -> Seq<u8> {
    decimal_digits(retransmission_times as nat) + seq![separator] + decimal_digits(port as nat)
        + seq![separator] + hex_string(transmitted(data))
}

/// A send command as the general serialisation would write it, with commas
/// between its arguments. The modem does not take it in this form.
#[derive(Clone, Debug)]
pub struct SendBytesUnprocessed {
    pub retransmission_times: u8,
    pub port: u8,
    pub data: Vec<u8>,
}

/// A send command in the form that the modem takes, with colons between its
/// arguments.
#[derive(Clone, Debug)]
pub struct SendBytes {
    pub val: Vec<u8>,
}

fn payload_of(data: &[u8]) -> (r: Vec<u8>)
    ensures
        r@ == transmitted(data@),
{
    if data.len() == 0 {
        let mut r: Vec<u8> = Vec::new();
        r.push(0);
        assert(r@ =~= seq![0u8]);
        return r;
    }
    let kept: usize = if data.len() > PAYLOAD_CAPACITY {
        PAYLOAD_CAPACITY
    } else {
        data.len()
    };
    let mut end: usize = kept;
    proof {
        assert(data@.subrange(0, data@.len() as int) =~= data@);
    }
    while end > 1 && data[end - 1] == 0
        invariant
            1 <= end <= kept <= data@.len(),
            transmitted(data@) == without_trailing_zeros(data@.subrange(0, end as int)),
        decreases end,
    {
        proof {
            assert(data@.subrange(0, end as int).drop_last() =~= data@.subrange(0, end - 1));
        }
        end = end - 1;
    }
    crate::wire::to_vec(slice_subrange(data, 0, end))
}

impl SendBytesUnprocessed {
    /// The command in the form that the modem takes.
    ///
    /// The arguments are written with commas between them, and every comma
    /// is then replaced by a colon. No argument holds a comma of its own, so
    /// the result is the arguments with colons between them.
    pub fn processed(self) -> (r: SendBytes)
        ensures
            r.val@ == send_arguments(self.retransmission_times, self.port, self.data@, COLON),
            r.val@.len() <= 520,
    {
        proof {
            lemma_send_arguments_len(self.retransmission_times, self.port, self.data@, COLON);
        }
        let mut val: Vec<u8> = Vec::new();
        write_decimal(&mut val, self.retransmission_times as u32);
        val.push(COMMA);
        write_decimal(&mut val, self.port as u32);
        val.push(COMMA);
        let payload = payload_of(self.data.as_slice());
        write_hex_string(&mut val, payload.as_slice());
        proof {
            assert(val@ =~= send_arguments(
                self.retransmission_times,
                self.port,
                self.data@,
                COMMA,
            ));
            lemma_send_arguments_substituted(self.retransmission_times, self.port, self.data@);
        }
        substitute(&mut val, COMMA, COLON);
        SendBytes { val }
    }
}

impl SendBytes {
    /// The command that sends `data` on `port`, to be retransmitted up to
    /// `retransmission_times` times.
    pub fn new(retransmission_times: u8, port: u8, data: &[u8]) -> (r: Self)
        ensures
            r.val@ == send_arguments(retransmission_times, port, data@, COLON),
            r.val@.len() <= 520,
    {
        SendBytesUnprocessed {
            retransmission_times,
            port,
            data: crate::wire::to_vec(data),
        }.processed()
    }

    /// The command line.
    pub fn as_bytes(&self) -> (line: Vec<u8>)
        ensures
            line@ == set_line("+SENDB".spec_bytes(), self.val@),
            line@.len() == 11 + self.val@.len(),
    {
        proof {
            reveal_strlit("+SENDB");
            vstd::string::is_ascii_spec_bytes("+SENDB");
        }
        encode_set("+SENDB", self.val.as_slice())
    }
}

/// Replacing the commas in the arguments of a send command by colons gives
/// the arguments with colons between them: the arguments themselves are made
/// of digits.
pub proof fn lemma_send_arguments_substituted(retransmission_times: u8, port: u8, data: Seq<u8>)
    ensures
        substituted(send_arguments(retransmission_times, port, data, COMMA), COMMA, COLON)
            == send_arguments(retransmission_times, port, data, COLON),
{
    let a = decimal_digits(retransmission_times as nat);
    let b = decimal_digits(port as nat);
    let c = hex_string(transmitted(data));
    lemma_decimal_round_trip(retransmission_times as nat);
    lemma_decimal_round_trip(port as nat);
    lemma_hex_string_well_formed(transmitted(data));
    let with_commas = send_arguments(retransmission_times, port, data, COMMA);
    let with_colons = send_arguments(retransmission_times, port, data, COLON);
    assert forall|i: int| 0 <= i < with_commas.len() implies substituted(
        with_commas,
        COMMA,
        COLON,
    )[i] == with_colons[i] by {
        if i < a.len() {
            assert(with_commas[i] == a[i]);
            assert(crate::codec::is_decimal_digit(a[i]));
        } else if i == a.len() {
        } else if i < a.len() + 1 + b.len() {
            assert(with_commas[i] == b[i - a.len() - 1]);
            assert(crate::codec::is_decimal_digit(b[i - a.len() - 1]));
        } else if i == a.len() + 1 + b.len() {
        } else {
            let j = i - a.len() - b.len() - 2;
            assert(with_commas[i] == c[j]);
            assert(crate::codec::hex_value(c[j]) is Some);
        }
    }
    assert(substituted(with_commas, COMMA, COLON) =~= with_colons);
}

} // verus!
