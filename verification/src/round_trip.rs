//! Round trips: what a command carries to the modem, handed back as the
//! payload of the response, decodes to the value that the command was made
//! with.
use vstd::prelude::*;
use vstd::string::StringSliceAdditionalSpecFns;
use crate::codec::{
    all_decimal_digits, all_hex_digits, decimal_digits, decimal_fault, decimal_value, hex_fault,
    hex_groups, hex_slot_ok, hex_string, hex_string_fault, hex_value, is_decimal_digit,
    lemma_decimal_digits_len, lemma_decimal_round_trip, lemma_hex_groups_len,
    lemma_hex_groups_slots, lemma_hex_round_trip, lemma_hex_string_round_trip,
    lemma_hex_string_well_formed, radix, token_fault, GROUP_DELIMITER,
};
use crate::encoder::{substituted, COLON, COMMA};
use crate::lora::commands::{lemma_transmitted_len, send_arguments, transmitted};
use crate::lora::responses::{
    colon_fields, send_response_fault, CLASS_CAPACITY, JOIN_MODE_CAPACITY, PAYLOAD_CAPACITY,
    REGION_CAPACITY,
};
use crate::lora::types::{
    class_of_token, class_token, join_mode_of_token, join_mode_token, lemma_class_round_trip,
    lemma_join_mode_round_trip, lemma_region_round_trip, region_of_token, region_token,
    LoraClass, LoraJoinMode, LoraRegion,
};
use crate::payload::{fields, lemma_body_of_plain_text, lemma_fields_cons, lemma_fields_single,
    response_body};

verus! {

/// Identifiers and keys: the text that a set command carries is its own
/// body, the decoder accepts it, and it is the text of no other value. So
/// the response that echoes the text decodes to the value that was set.
pub proof fn lemma_identifier_round_trip(value: nat, bytes: nat)
    requires
        1 <= bytes,
        value < radix(bytes),
    ensures
        response_body(hex_groups(value, bytes, GROUP_DELIMITER)) == hex_groups(
            value,
            bytes,
            GROUP_DELIMITER,
        ),
        hex_fault(hex_groups(value, bytes, GROUP_DELIMITER), bytes, GROUP_DELIMITER) is None,
        forall|other: nat|
            other < radix(bytes) && #[trigger] hex_groups(other, bytes, GROUP_DELIMITER)
                == hex_groups(value, bytes, GROUP_DELIMITER) ==> other == value,
{
    let text = hex_groups(value, bytes, GROUP_DELIMITER);
    lemma_hex_round_trip(value, bytes, GROUP_DELIMITER);
    lemma_hex_groups_len(value, bytes, GROUP_DELIMITER);
    lemma_hex_groups_slots(value, bytes, GROUP_DELIMITER);
    assert(hex_slot_ok(text, GROUP_DELIMITER, 0));
    assert(hex_slot_ok(text, GROUP_DELIMITER, text.len() - 1));
    lemma_body_of_plain_text(text);
}

/// Regions: the token that a set command carries is its own body, fits the
/// response, and stands for the region that was set.
pub proof fn lemma_region_set_round_trip(region: LoraRegion)
    requires
        region != LoraRegion::Unknown,
    ensures
        response_body(region_token(region)) == region_token(region),
        token_fault(region_token(region), REGION_CAPACITY as nat) is None,
        region_of_token(response_body(region_token(region))) == region,
{
    lemma_region_round_trip(region);
    reveal_strlit("EU868");
    reveal_strlit("IN865");
    reveal_strlit("RU864");
    reveal_strlit("US915");
    reveal_strlit("AU915");
    reveal_strlit("AS923");
    vstd::string::is_ascii_spec_bytes("EU868");
    vstd::string::is_ascii_spec_bytes("IN865");
    vstd::string::is_ascii_spec_bytes("RU864");
    vstd::string::is_ascii_spec_bytes("US915");
    vstd::string::is_ascii_spec_bytes("AU915");
    vstd::string::is_ascii_spec_bytes("AS923");
    let token = region_token(region);
    assert(token.len() == 5);
    assert(0x41 <= token[0] <= 0x5A);
    assert(0x30 <= token[4] <= 0x39);
    lemma_body_of_plain_text(token);
}

/// Device classes: the token that a set command carries is its own body,
/// fits the response, and stands for the class that was set.
pub proof fn lemma_class_set_round_trip(class: LoraClass)
    requires
        class != LoraClass::Unknown,
    ensures
        response_body(class_token(class)) == class_token(class),
        token_fault(class_token(class), CLASS_CAPACITY as nat) is None,
        class_of_token(response_body(class_token(class))) == class,
{
    lemma_class_round_trip(class);
    reveal_strlit("A");
    reveal_strlit("B");
    reveal_strlit("C");
    vstd::string::is_ascii_spec_bytes("A");
    vstd::string::is_ascii_spec_bytes("B");
    vstd::string::is_ascii_spec_bytes("C");
    let token = class_token(class);
    assert(token.len() == 1);
    assert(0x41 <= token[0] <= 0x43);
    lemma_body_of_plain_text(token);
}

/// Join modes: the token that a set command carries is its own body, fits
/// the response, and stands for the mode that was set.
pub proof fn lemma_join_mode_set_round_trip(mode: LoraJoinMode)
    requires
        mode != LoraJoinMode::Unknown,
    ensures
        response_body(join_mode_token(mode)) == join_mode_token(mode),
        token_fault(join_mode_token(mode), JOIN_MODE_CAPACITY as nat) is None,
        join_mode_of_token(response_body(join_mode_token(mode))) == mode,
{
    lemma_join_mode_round_trip(mode);
    reveal_strlit("OTAA");
    reveal_strlit("ABP");
    vstd::string::is_ascii_spec_bytes("OTAA");
    vstd::string::is_ascii_spec_bytes("ABP");
    let token = join_mode_token(mode);
    assert(3 <= token.len() <= 4);
    assert(0x41 <= token[0] <= 0x5A);
    assert(0x41 <= token.last() <= 0x5A);
    lemma_body_of_plain_text(token);
}

/// Switches: `ON` and `OFF` are their own bodies, and they are two different
/// texts, so a response that echoes one of them is read as that one.
pub proof fn lemma_switch_round_trip()
    ensures
        response_body("ON".spec_bytes()) == "ON".spec_bytes(),
        response_body("OFF".spec_bytes()) == "OFF".spec_bytes(),
        "ON".spec_bytes() != "OFF".spec_bytes(),
        "ON".spec_bytes().len() == 2,
        "OFF".spec_bytes().len() == 3,
{
    reveal_strlit("ON");
    reveal_strlit("OFF");
    vstd::string::is_ascii_spec_bytes("ON");
    vstd::string::is_ascii_spec_bytes("OFF");
    let on = "ON".spec_bytes();
    let off = "OFF".spec_bytes();
    assert(on.len() == 2 && on[0] == 0x4F && on[1] == 0x4E);
    assert(off.len() == 3 && off[0] == 0x4F && off[2] == 0x46);
    lemma_body_of_plain_text(on);
    lemma_body_of_plain_text(off);
}

/// Numbers: the digits that a set command carries are their own body, the
/// decoder accepts them, and they stand for the number that was set.
pub proof fn lemma_number_round_trip(n: nat, max: nat)
    requires
        n <= max,
    ensures
        response_body(decimal_digits(n)) == decimal_digits(n),
        decimal_fault(decimal_digits(n), max) is None,
        decimal_value(decimal_digits(n)) == n,
{
    let text = decimal_digits(n);
    lemma_decimal_round_trip(n);
    assert(is_decimal_digit(text[0]));
    assert(is_decimal_digit(text[text.len() - 1]));
    lemma_body_of_plain_text(text);
}

/// Sending: the arguments of a send command, read as the response to one,
/// have three fields in order, which are the number of retransmissions, the
/// port and what is sent of the payload; and the payload field is the text
/// of no other byte string.
pub proof fn lemma_send_round_trip(retransmission_times: u8, port: u8, data: Seq<u8>)
    ensures
        send_response_fault(send_arguments(retransmission_times, port, data, COLON)) is None,
        colon_fields(send_arguments(retransmission_times, port, data, COLON)) == seq![
            decimal_digits(retransmission_times as nat),
            decimal_digits(port as nat),
            hex_string(transmitted(data)),
        ],
        decimal_value(decimal_digits(retransmission_times as nat)) == retransmission_times,
        decimal_value(decimal_digits(port as nat)) == port,
        forall|other: Seq<u8>| #[trigger]
            hex_string(other) == hex_string(transmitted(data)) ==> other == transmitted(data),
{
    let a = decimal_digits(retransmission_times as nat);
    let b = decimal_digits(port as nat);
    let c = hex_string(transmitted(data));
    lemma_decimal_round_trip(retransmission_times as nat);
    lemma_decimal_round_trip(port as nat);
    lemma_transmitted_len(data);
    lemma_hex_string_well_formed(transmitted(data));
    lemma_hex_string_round_trip(transmitted(data), PAYLOAD_CAPACITY as nat);
    let with_colons = send_arguments(retransmission_times, port, data, COLON);
    let with_commas = send_arguments(retransmission_times, port, data, COMMA);
    assert forall|i: int| 0 <= i < with_colons.len() implies substituted(
        with_colons,
        COLON,
        COMMA,
    )[i] == with_commas[i] by {
        if i < a.len() {
            assert(with_colons[i] == a[i]);
            assert(is_decimal_digit(a[i]));
        } else if i == a.len() {
        } else if i < a.len() + 1 + b.len() {
            assert(with_colons[i] == b[i - a.len() - 1]);
            assert(is_decimal_digit(b[i - a.len() - 1]));
        } else if i == a.len() + 1 + b.len() {
        } else {
            let j = i - a.len() - b.len() - 2;
            assert(with_colons[i] == c[j]);
            assert(hex_value(c[j]) is Some);
        }
    }
    assert(substituted(with_colons, COLON, COMMA) =~= with_commas);
    assert forall|i: int| 0 <= i < a.len() implies a[i] != COMMA by {
        assert(is_decimal_digit(a[i]));
    }
    assert forall|i: int| 0 <= i < b.len() implies b[i] != COMMA by {
        assert(is_decimal_digit(b[i]));
    }
    assert forall|i: int| 0 <= i < c.len() implies c[i] != COMMA by {
        assert(hex_value(c[i]) is Some);
    }
    lemma_fields_single(c, COMMA);
    lemma_fields_cons(b, COMMA, c);
    lemma_fields_cons(a, COMMA, b + seq![COMMA] + c);
    assert(with_commas =~= a + seq![COMMA] + (b + seq![COMMA] + c));
    assert(fields(with_commas, COMMA) =~= seq![a, b, c]);
}

} // verus!
