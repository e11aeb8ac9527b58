//! The field codec: the textual forms of the scalar values that commands
//! carry and responses report.
//!
//! Identifiers and keys are written in upper-case hexadecimal, one group of
//! two digits for each byte, the most significant byte first, the groups
//! joined by a delimiter. Every byte is written, leading zeros too, so the
//! text of a value has a fixed length. Decoding is the strict inverse: it
//! accepts the texts that encoding produces and no others.
use vstd::prelude::*;
use vstd::slice::slice_subrange;
use crate::wire::{find_byte, first_byte, to_vec};

verus! {

/// What is wrong with the text of a field.
#[derive(Clone, Copy, Debug, PartialEq, Eq, Structural)]
pub enum FieldError {
    /// The text has the wrong number of characters, or none at all.
    Length,
    /// A character that should be a digit is none.
    Digit,
    /// A character that should be a delimiter is something else.
    Delimiter,
    /// The number does not fit the field.
    Range,
}

/// The delimiter between the byte groups of identifiers and keys.
pub const GROUP_DELIMITER: u8 = 0x3A;

/// The upper-case hexadecimal digit for a value below sixteen.
pub open spec fn hex_digit(n: int) -> u8 {
    if n < 10 {
        (0x30 + n) as u8
    } else {
        (0x37 + n) as u8
    }
}

/// The value of an upper-case hexadecimal digit.
pub open spec fn hex_value(c: u8) -> Option<int> {
    if 0x30 <= c <= 0x39 {
        Some(c - 0x30)
    } else if 0x41 <= c <= 0x46 {
        Some(c - 0x37)
    } else {
        None
    }
}

/// The two digits of one byte.
pub open spec fn hex_byte(b: int) -> Seq<u8> {
    seq![hex_digit(b / 16), hex_digit(b % 16)]
}

/// The text of the `bytes` least significant bytes of `value`: two digits for
/// each byte, the most significant byte first, `delimiter` between the groups.
pub open spec fn hex_groups(value: nat, bytes: nat, delimiter: u8) -> Seq<u8>
    decreases bytes,
{
    if bytes == 0 {
        Seq::empty()
    } else if bytes == 1 {
        hex_byte((value % 256) as int)
    } else {
        hex_groups(value / 256, (bytes - 1) as nat, delimiter) + seq![delimiter] + hex_byte(
            (value % 256) as int,
        )
    }
}

/// The number of characters in the text of `bytes` bytes.
pub open spec fn hex_groups_len(bytes: nat) -> nat {
    if bytes == 0 {
        0
    } else {
        (3 * bytes - 1) as nat
    }
}

/// The number of values that `bytes` bytes can hold.
pub open spec fn radix(bytes: nat) -> nat
    decreases bytes,
{
    if bytes == 0 {
        1
    } else {
        256 * radix((bytes - 1) as nat)
    }
}

/// The first thing that is wrong with `text` from position `at` on, read as
/// byte groups: every third character is to be the delimiter, all others
/// upper-case hexadecimal digits.
pub open spec fn hex_fault_from(text: Seq<u8>, delimiter: u8, at: int) -> Option<FieldError>
    decreases text.len() - at,
{
    if at < 0 || at >= text.len() {
        None
    } else if at % 3 == 2 {
        if text[at] != delimiter {
            Some(FieldError::Delimiter)
        } else {
            hex_fault_from(text, delimiter, at + 1)
        }
    } else if hex_value(text[at]) is None {
        Some(FieldError::Digit)
    } else {
        hex_fault_from(text, delimiter, at + 1)
    }
}

/// What is wrong with `text` as the text of `bytes` bytes, if anything: its
/// length, or else the first character that is out of place.
pub open spec fn hex_fault(text: Seq<u8>, bytes: nat, delimiter: u8) -> Option<FieldError> {
    if text.len() != hex_groups_len(bytes) {
        Some(FieldError::Length)
    } else {
        hex_fault_from(text, delimiter, 0)
    }
}

/// Appends the two digits of `b`.
fn push_hex_byte(out: &mut Vec<u8>, b: u8)
    ensures
        final(out)@ == old(out)@ + hex_byte(b as int),
{
    let high: u8 = b / 16;
    let low: u8 = b % 16;
    out.push(
        if high < 10 {
            0x30 + high
        } else {
            0x37 + high
        },
    );
    out.push(
        if low < 10 {
            0x30 + low
        } else {
            0x37 + low
        },
    );
    assert(final(out)@ =~= old(out)@ + hex_byte(b as int));
}

/// Appends the text of the `bytes` least significant bytes of `value`.
pub fn write_hex_groups(out: &mut Vec<u8>, value: u128, bytes: usize, delimiter: u8)
    ensures
        final(out)@ == old(out)@ + hex_groups(value as nat, bytes as nat, delimiter),
    decreases bytes,
{
    if bytes == 0 {
        assert(out@ =~= old(out)@ + hex_groups(value as nat, 0, delimiter));
        return ;
    }
    if bytes > 1 {
        write_hex_groups(out, value / 256, bytes - 1, delimiter);
        out.push(delimiter);
    }
    push_hex_byte(out, (value % 256) as u8);
    assert(final(out)@ =~= old(out)@ + hex_groups(value as nat, bytes as nat, delimiter));
}

/// The text of a 64-bit identifier.
pub fn encode_hex_u64(value: u64, delimiter: u8) -> (text: Vec<u8>)
    ensures
        text@ == hex_groups(value as nat, 8, delimiter),
        text@.len() == 23,
{
    let mut text: Vec<u8> = Vec::new();
    write_hex_groups(&mut text, value as u128, 8, delimiter);
    proof {
        lemma_hex_groups_len(value as nat, 8, delimiter);
    }
    text
}

/// The text of a 128-bit key.
pub fn encode_hex_u128(value: u128, delimiter: u8) -> (text: Vec<u8>)
    ensures
        text@ == hex_groups(value as nat, 16, delimiter),
        text@.len() == 47,
{
    let mut text: Vec<u8> = Vec::new();
    write_hex_groups(&mut text, value, 16, delimiter);
    proof {
        lemma_hex_groups_len(value as nat, 16, delimiter);
    }
    text
}

/// The value of the upper-case hexadecimal digit `c`, or `None`.
fn hex_digit_value(c: u8) -> (r: Option<u8>)
    ensures
        match r {
            Some(v) => hex_value(c) == Some(v as int) && v < 16 && hex_digit(v as int) == c,
            None => hex_value(c) is None,
        },
{
    if 0x30 <= c && c <= 0x39 {
        Some(c - 0x30)
    } else if 0x41 <= c && c <= 0x46 {
        Some(c - 0x37)
    } else {
        None
    }
}

/// Reads `text` as the text of `bytes` bytes.
///
/// The text is accepted if and only if it is what [`write_hex_groups`] writes
/// for some value; the error says what is wrong with it otherwise.
pub fn parse_hex_groups(text: &[u8], bytes: usize, delimiter: u8) -> (r: Result<u128, FieldError>)
    requires
        bytes <= 16,
    ensures
        r is Ok <==> hex_fault(text@, bytes as nat, delimiter) is None,
        r matches Ok(v) ==> v < radix(bytes as nat) && text@ == hex_groups(
            v as nat,
            bytes as nat,
            delimiter,
        ),
        r matches Err(e) ==> hex_fault(text@, bytes as nat, delimiter) == Some(e),
{
    let expected: usize = if bytes == 0 {
        0
    } else {
        3 * bytes - 1
    };
    if text.len() != expected {
        return Err(FieldError::Length);
    }
    let mut value: u128 = 0;
    let mut k: usize = 0;
    while k < bytes
        invariant
            bytes <= 16,
            k <= bytes,
            text@.len() == hex_groups_len(bytes as nat),
            hex_fault_from(text@, delimiter, 0) == hex_fault_from(
                text@,
                delimiter,
                hex_groups_len(k as nat) as int + if 0 < k < bytes {
                    1int
                } else {
                    0int
                },
            ),
            value < radix(k as nat),
            0 < k < bytes ==> text@[3 * k - 1] == delimiter,
            text@.subrange(0, hex_groups_len(k as nat) as int) == hex_groups(
                value as nat,
                k as nat,
                delimiter,
            ),
        decreases bytes - k,
    {
        let at: usize = 3 * k;
        let high = match hex_digit_value(text[at]) {
            Some(v) => v,
            None => {
                return Err(FieldError::Digit);
            },
        };
        let low = match hex_digit_value(text[at + 1]) {
            Some(v) => v,
            None => {
                assert(hex_fault_from(text@, delimiter, at as int) == hex_fault_from(
                    text@,
                    delimiter,
                    at + 1,
                ));
                return Err(FieldError::Digit);
            },
        };
        proof {
            assert(hex_fault_from(text@, delimiter, at as int) == hex_fault_from(
                text@,
                delimiter,
                at + 1,
            ));
            assert(hex_fault_from(text@, delimiter, at + 1) == hex_fault_from(
                text@,
                delimiter,
                at + 2,
            ));
        }
        if k + 1 < bytes && text[at + 2] != delimiter {
            return Err(FieldError::Delimiter);
        }
        let byte: u8 = 16 * high + low;
        proof {
            lemma_radix_bound(k as nat);
            let next = (value * 256 + byte) as nat;
            assert(next / 256 == value && next % 256 == byte);
            assert(hex_byte(byte as int) =~= seq![text@[at as int], text@[at + 1]]);
            if k == 0 {
                assert(text@.subrange(0, 2) =~= hex_byte(byte as int));
            } else {
                assert(text@.subrange(0, hex_groups_len((k + 1) as nat) as int) =~= text@.subrange(
                    0,
                    hex_groups_len(k as nat) as int,
                ) + seq![delimiter] + hex_byte(byte as int));
            }
            if k + 1 < bytes {
                assert(hex_fault_from(text@, delimiter, at + 2) == hex_fault_from(
                    text@,
                    delimiter,
                    at + 3,
                ));
            }
        }
        value = value * 256 + byte as u128;
        k = k + 1;
    }
    proof {
        assert(text@.subrange(0, text@.len() as int) =~= text@);
    }
    Ok(value)
}

/// Reads the text of a 64-bit identifier.
pub fn decode_hex_u64(text: &[u8], delimiter: u8) -> (r: Result<u64, FieldError>)
    ensures
        r is Ok <==> hex_fault(text@, 8, delimiter) is None,
        r matches Ok(v) ==> text@ == hex_groups(v as nat, 8, delimiter),
        r matches Err(e) ==> hex_fault(text@, 8, delimiter) == Some(e),
{
    match parse_hex_groups(text, 8, delimiter) {
        Ok(v) => {
            proof {
                lemma_radix_bound(8);
            }
            Ok(v as u64)
        },
        Err(e) => Err(e),
    }
}

/// Reads the text of a 128-bit key.
pub fn decode_hex_u128(text: &[u8], delimiter: u8) -> (r: Result<u128, FieldError>)
    ensures
        r is Ok <==> hex_fault(text@, 16, delimiter) is None,
        r matches Ok(v) ==> text@ == hex_groups(v as nat, 16, delimiter),
        r matches Err(e) ==> hex_fault(text@, 16, delimiter) == Some(e),
{
    parse_hex_groups(text, 16, delimiter)
}

/// The number of values of up to sixteen bytes, which is what a `u128` holds.
pub proof fn lemma_radix_bound(bytes: nat)
    requires
        bytes <= 16,
    ensures
        radix(bytes) <= 0x1_0000_0000_0000_0000_0000_0000_0000_0000,
        bytes < 16 ==> 256 * radix(bytes) <= 0x1_0000_0000_0000_0000_0000_0000_0000_0000,
        bytes == 8 ==> radix(bytes) == 0x1_0000_0000_0000_0000,
        bytes == 16 ==> radix(bytes) == 0x1_0000_0000_0000_0000_0000_0000_0000_0000,
{
    reveal_with_fuel(radix, 17);
}

/// The character at position `i` of `text` is what its place in a sequence
/// of byte groups asks for.
pub open spec fn hex_slot_ok(text: Seq<u8>, delimiter: u8, i: int) -> bool {
    if i % 3 == 2 {
        text[i] == delimiter
    } else {
        hex_value(text[i]) is Some
    }
}

proof fn lemma_no_fault(text: Seq<u8>, delimiter: u8, at: int)
    requires
        0 <= at,
        forall|i: int| at <= i < text.len() ==> hex_slot_ok(text, delimiter, i),
    ensures
        hex_fault_from(text, delimiter, at) is None,
    decreases text.len() - at,
{
    if at < text.len() {
        assert(hex_slot_ok(text, delimiter, at));
        lemma_no_fault(text, delimiter, at + 1);
    }
}

/// Every character of the text of a value is what its place asks for.
pub proof fn lemma_hex_groups_slots(value: nat, bytes: nat, delimiter: u8)
    ensures
        forall|i: int|
            0 <= i < hex_groups(value, bytes, delimiter).len() ==> hex_slot_ok(
                hex_groups(value, bytes, delimiter),
                delimiter,
                i,
            ),
    decreases bytes,
{
    let text = hex_groups(value, bytes, delimiter);
    lemma_hex_groups_len(value, bytes, delimiter);
    if bytes > 1 {
        let front = hex_groups(value / 256, (bytes - 1) as nat, delimiter);
        lemma_hex_groups_slots(value / 256, (bytes - 1) as nat, delimiter);
        lemma_hex_groups_len(value / 256, (bytes - 1) as nat, delimiter);
        assert forall|i: int| 0 <= i < text.len() implies hex_slot_ok(text, delimiter, i) by {
            if i < front.len() {
                assert(text[i] == front[i]);
                assert(hex_slot_ok(front, delimiter, i));
            }
        }
    }
}

/// Round trip of the hexadecimal form: the text of a value is accepted by the
/// decoder, and it is the text of no other value of the same width.
pub proof fn lemma_hex_round_trip(value: nat, bytes: nat, delimiter: u8)
    requires
        value < radix(bytes),
    ensures
        hex_fault(hex_groups(value, bytes, delimiter), bytes, delimiter) is None,
        forall|other: nat|
            other < radix(bytes) && #[trigger] hex_groups(other, bytes, delimiter) == hex_groups(
                value,
                bytes,
                delimiter,
            ) ==> other == value,
{
    lemma_hex_groups_len(value, bytes, delimiter);
    lemma_hex_groups_slots(value, bytes, delimiter);
    lemma_no_fault(hex_groups(value, bytes, delimiter), delimiter, 0);
    assert forall|other: nat|
        other < radix(bytes) && #[trigger] hex_groups(other, bytes, delimiter) == hex_groups(
            value,
            bytes,
            delimiter,
        ) implies other == value by {
        lemma_hex_groups_injective(other, value, bytes, delimiter);
    }
}

/// Two values of the same width with the same text are the same value.
pub proof fn lemma_hex_groups_injective(a: nat, b: nat, bytes: nat, delimiter: u8)
    requires
        a < radix(bytes),
        b < radix(bytes),
        hex_groups(a, bytes, delimiter) == hex_groups(b, bytes, delimiter),
    ensures
        a == b,
    decreases bytes,
{
    if bytes > 0 {
        let ta = hex_groups(a, bytes, delimiter);
        let tb = hex_groups(b, bytes, delimiter);
        lemma_hex_groups_len(a, bytes, delimiter);
        let la = hex_byte((a % 256) as int);
        let lb = hex_byte((b % 256) as int);
        let n = ta.len() as int;
        assert(ta[n - 2] == la[0] && ta[n - 1] == la[1]);
        assert(tb[n - 2] == lb[0] && tb[n - 1] == lb[1]);
        let x = (a % 256) as int;
        let y = (b % 256) as int;
        assert(hex_digit(x / 16) == hex_digit(y / 16) && hex_digit(x % 16) == hex_digit(y % 16));
        assert(x / 16 == y / 16 && x % 16 == y % 16);
        assert(x == y);
        if bytes == 1 {
            reveal_with_fuel(radix, 2);
        }
        if bytes > 1 {
            let fa = hex_groups(a / 256, (bytes - 1) as nat, delimiter);
            let fb = hex_groups(b / 256, (bytes - 1) as nat, delimiter);
            lemma_hex_groups_len(a / 256, (bytes - 1) as nat, delimiter);
            lemma_hex_groups_len(b / 256, (bytes - 1) as nat, delimiter);
            assert(fa =~= ta.subrange(0, n - 3));
            assert(fb =~= tb.subrange(0, n - 3));
            lemma_hex_groups_injective(a / 256, b / 256, (bytes - 1) as nat, delimiter);
        }
    }
}

/// The text of a value has the length that its number of bytes fixes.
pub proof fn lemma_hex_groups_len(value: nat, bytes: nat, delimiter: u8)
    ensures
        hex_groups(value, bytes, delimiter).len() == hex_groups_len(bytes),
    decreases bytes,
{
    if bytes > 1 {
        lemma_hex_groups_len(value / 256, (bytes - 1) as nat, delimiter);
    }
}

/// A decimal digit.
pub open spec fn is_decimal_digit(c: u8) -> bool {
    0x30 <= c <= 0x39
}

/// Every character of `text` is a decimal digit.
pub open spec fn all_decimal_digits(text: Seq<u8>) -> bool {
    forall|i: int| 0 <= i < text.len() ==> is_decimal_digit(#[trigger] text[i])
}

/// The decimal digits of `n`, without leading zeros.
pub open spec fn decimal_digits(n: nat) -> Seq<u8>
    decreases n,
{
    if n < 10 {
        seq![(0x30 + n) as u8]
    } else {
        decimal_digits(n / 10).push((0x30 + n % 10) as u8)
    }
}

/// The number that a run of decimal digits stands for.
pub open spec fn decimal_value(text: Seq<u8>) -> nat
    decreases text.len(),
{
    if text.len() == 0 {
        0
    } else {
        10 * decimal_value(text.drop_last()) + (text.last() - 0x30) as nat
    }
}

/// What is wrong with `text` as a number of at most `max`, if anything: it is
/// empty, or holds something that is no digit, or stands for too large a
/// number.
pub open spec fn decimal_fault(text: Seq<u8>, max: nat) -> Option<FieldError> {
    if text.len() == 0 {
        Some(FieldError::Length)
    } else if !all_decimal_digits(text) {
        Some(FieldError::Digit)
    } else if decimal_value(text) > max {
        Some(FieldError::Range)
    } else {
        None
    }
}

/// Appends the decimal digits of `n`.
pub fn write_decimal(out: &mut Vec<u8>, n: u32)
    ensures
        final(out)@ == old(out)@ + decimal_digits(n as nat),
    decreases n,
{
    if n >= 10 {
        write_decimal(out, n / 10);
    }
    out.push(0x30 + (n % 10) as u8);
    assert(final(out)@ =~= old(out)@ + decimal_digits(n as nat));
}

/// Reads `text` as a decimal number of at most `max`. Leading zeros are
/// accepted; a sign is not.
pub fn parse_decimal(text: &[u8], max: u32) -> (r: Result<u32, FieldError>)
    ensures
        r is Ok <==> decimal_fault(text@, max as nat) is None,
        r matches Ok(v) ==> v == decimal_value(text@),
        r matches Err(e) ==> decimal_fault(text@, max as nat) == Some(e),
{
    if text.len() == 0 {
        return Err(FieldError::Length);
    }
    let mut i: usize = 0;
    while i < text.len()
        invariant
            i <= text@.len(),
            forall|j: int| 0 <= j < i ==> is_decimal_digit(#[trigger] text@[j]),
        decreases text@.len() - i,
    {
        if text[i] < 0x30 || text[i] > 0x39 {
            return Err(FieldError::Digit);
        }
        i = i + 1;
    }
    let mut value: u64 = 0;
    let mut k: usize = 0;
    proof {
        assert(text@.subrange(0, 0) =~= Seq::<u8>::empty());
    }
    while k < text.len()
        invariant
            k <= text@.len(),
            all_decimal_digits(text@),
            value <= max,
            value == decimal_value(text@.subrange(0, k as int)),
        decreases text@.len() - k,
    {
        let next: u64 = value * 10 + (text[k] - 0x30) as u64;
        proof {
            let upto = text@.subrange(0, k + 1);
            assert(upto.drop_last() =~= text@.subrange(0, k as int));
            assert(upto.last() == text@[k as int]);
            assert(next == decimal_value(upto));
        }
        if next > max as u64 {
            proof {
                lemma_decimal_value_prefix(text@, k + 1);
            }
            return Err(FieldError::Range);
        }
        value = next;
        k = k + 1;
    }
    proof {
        assert(text@.subrange(0, text@.len() as int) =~= text@);
    }
    Ok(value as u32)
}

/// A run of digits stands for a number that is no smaller than the number
/// that any of its prefixes stands for.
pub proof fn lemma_decimal_value_prefix(text: Seq<u8>, k: int)
    requires
        all_decimal_digits(text),
        0 <= k <= text.len(),
    ensures
        decimal_value(text.subrange(0, k)) <= decimal_value(text),
    decreases text.len() - k,
{
    if k < text.len() {
        let upto = text.subrange(0, k + 1);
        assert(upto.drop_last() =~= text.subrange(0, k));
        assert(is_decimal_digit(text[k]));
        lemma_decimal_value_prefix(text, k + 1);
    } else {
        assert(text.subrange(0, k) =~= text);
    }
}

/// The number of digits of a number below a thousand.
pub proof fn lemma_decimal_digits_len(n: nat)
    requires
        n < 1000,
    ensures
        decimal_digits(n).len() == if n < 10 {
            1nat
        } else if n < 100 {
            2nat
        } else {
            3nat
        },
{
    reveal_with_fuel(decimal_digits, 4);
}

/// Round trip of the decimal form: the digits of a number are digits, and
/// they stand for that number.
pub proof fn lemma_decimal_round_trip(n: nat)
    ensures
        decimal_digits(n).len() >= 1,
        all_decimal_digits(decimal_digits(n)),
        decimal_value(decimal_digits(n)) == n,
    decreases n,
{
    if n >= 10 {
        lemma_decimal_round_trip(n / 10);
        let front = decimal_digits(n / 10);
        let text = decimal_digits(n);
        assert(text.drop_last() =~= front);
        assert(text.last() == (0x30 + n % 10) as u8);
        assert(decimal_value(text) == 10 * decimal_value(front) + n % 10);
        assert forall|i: int| 0 <= i < text.len() implies is_decimal_digit(#[trigger] text[i]) by {
            if i < front.len() {
                assert(text[i] == front[i]);
            }
        }
    } else {
        let text = decimal_digits(n);
        assert(text.drop_last() =~= Seq::<u8>::empty());
        assert(decimal_value(Seq::<u8>::empty()) == 0);
        assert(text.last() == (0x30 + n) as u8);
    }
}

/// The minus sign.
pub const MINUS: u8 = 0x2D;

/// The decimal point.
pub const POINT: u8 = 0x2E;

/// `text` begins with a minus sign.
pub open spec fn has_sign(text: Seq<u8>) -> bool {
    text.len() > 0 && text[0] == MINUS
}

/// `text` without its minus sign, if it has one.
pub open spec fn magnitude(text: Seq<u8>) -> Seq<u8> {
    if has_sign(text) {
        text.drop_first()
    } else {
        text
    }
}

/// What is wrong with `text` as a signed 32-bit number, if anything.
pub open spec fn signed_fault(text: Seq<u8>) -> Option<FieldError> {
    decimal_fault(
        magnitude(text),
        if has_sign(text) {
            0x8000_0000
        } else {
            0x7FFF_FFFF
        },
    )
}

/// The number that `text` stands for: its digits, negated under a minus sign.
pub open spec fn signed_value(text: Seq<u8>) -> int {
    if has_sign(text) {
        -(decimal_value(magnitude(text)) as int)
    } else {
        decimal_value(magnitude(text)) as int
    }
}

fn split_sign(text: &[u8]) -> (r: (bool, &[u8]))
    ensures
        r.0 == has_sign(text@),
        r.1@ == magnitude(text@),
{
    if text.len() > 0 && text[0] == MINUS {
        let rest = slice_subrange(text, 1, text.len());
        assert(rest@ =~= text@.drop_first());
        (true, rest)
    } else {
        (false, text)
    }
}

/// Reads `text` as a signed 32-bit decimal number: an optional minus sign and
/// digits.
pub fn parse_signed(text: &[u8]) -> (r: Result<i32, FieldError>)
    ensures
        r is Ok <==> signed_fault(text@) is None,
        r matches Ok(v) ==> v == signed_value(text@),
        r matches Err(e) ==> signed_fault(text@) == Some(e),
{
    let (negative, digits) = split_sign(text);
    if negative {
        match parse_decimal(digits, 0x8000_0000) {
            Ok(m) => if m == 0x8000_0000 {
                Ok(i32::MIN)
            } else {
                Ok(0 - (m as i32))
            },
            Err(e) => Err(e),
        }
    } else {
        match parse_decimal(digits, 0x7FFF_FFFF) {
            Ok(m) => Ok(m as i32),
            Err(e) => Err(e),
        }
    }
}

/// A decimal fraction: `mantissa` divided by ten to the power of `scale`.
#[derive(Clone, Copy, Debug, PartialEq, Eq, Structural)]
pub struct Decimal {
    pub mantissa: i32,
    pub scale: u8,
}

/// The largest mantissa and the largest scale of a [`Decimal`].
pub const MAX_MANTISSA: u32 = 999_999_999;

pub const MAX_SCALE: usize = 9;

/// The digits in front of the decimal point.
pub open spec fn whole_part(body: Seq<u8>) -> Seq<u8> {
    match first_byte(body, POINT, 0) {
        Some(p) => body.subrange(0, p),
        None => body,
    }
}

/// The digits behind the decimal point, where there is one.
pub open spec fn fraction_part(body: Seq<u8>) -> Option<Seq<u8>> {
    match first_byte(body, POINT, 0) {
        Some(p) => Some(body.subrange(p + 1, body.len() as int)),
        None => None,
    }
}

/// All digits of a fraction, with the decimal point left out.
pub open spec fn fraction_digits(body: Seq<u8>) -> Seq<u8> {
    match fraction_part(body) {
        Some(f) => whole_part(body) + f,
        None => whole_part(body),
    }
}

/// The number of digits behind the decimal point.
pub open spec fn fraction_scale(body: Seq<u8>) -> nat {
    match fraction_part(body) {
        Some(f) => f.len(),
        None => 0,
    }
}

/// What is wrong with `text` as a decimal fraction, if anything. A fraction
/// is an optional minus sign, digits, and optionally a point and more digits.
pub open spec fn fraction_fault(text: Seq<u8>) -> Option<FieldError> {
    let body = magnitude(text);
    if whole_part(body).len() == 0 || fraction_part(body) == Some(Seq::<u8>::empty()) {
        Some(FieldError::Length)
    } else if !all_decimal_digits(fraction_digits(body)) {
        Some(FieldError::Digit)
    } else if decimal_value(fraction_digits(body)) > MAX_MANTISSA || fraction_scale(body)
        > MAX_SCALE {
        Some(FieldError::Range)
    } else {
        None
    }
}

/// The fraction that `text` stands for.
pub open spec fn fraction_value(text: Seq<u8>) -> Decimal {
    let body = magnitude(text);
    Decimal {
        mantissa: if has_sign(text) {
            (-(decimal_value(fraction_digits(body)) as int)) as i32
        } else {
            decimal_value(fraction_digits(body)) as i32
        },
        scale: fraction_scale(body) as u8,
    }
}

/// Reads `text` as a decimal fraction.
pub fn parse_fraction(text: &[u8]) -> (r: Result<Decimal, FieldError>)
    ensures
        r is Ok <==> fraction_fault(text@) is None,
        r matches Ok(v) ==> v == fraction_value(text@),
        r matches Err(e) ==> fraction_fault(text@) == Some(e),
{
    let (negative, body) = split_sign(text);
    let end: usize = body.len();
    let mut digits: Vec<u8> = Vec::new();
    let scale: usize;
    match find_byte(body, POINT, 0) {
        Some(p) => {
            let whole = slice_subrange(body, 0, p);
            let fraction = slice_subrange(body, p + 1, end);
            if whole.len() == 0 || fraction.len() == 0 {
                assert(fraction@ =~= Seq::<u8>::empty() <==> fraction@.len() == 0);
                return Err(FieldError::Length);
            }
            digits.extend_from_slice(whole);
            digits.extend_from_slice(fraction);
            scale = fraction.len();
            assert(digits@ =~= fraction_digits(body@));
        },
        None => {
            if end == 0 {
                return Err(FieldError::Length);
            }
            digits.extend_from_slice(body);
            scale = 0;
            assert(digits@ =~= fraction_digits(body@));
        },
    }
    match parse_decimal(digits.as_slice(), MAX_MANTISSA) {
        Ok(m) => {
            if scale > MAX_SCALE {
                return Err(FieldError::Range);
            }
            Ok(
                Decimal {
                    mantissa: if negative {
                        0 - (m as i32)
                    } else {
                        m as i32
                    },
                    scale: scale as u8,
                },
            )
        },
        Err(e) => Err(e),
    }
}

/// The text of a byte string: two upper-case hexadecimal digits for each
/// byte, in order, with nothing between them.
pub open spec fn hex_string(data: Seq<u8>) -> Seq<u8>
    decreases data.len(),
{
    if data.len() == 0 {
        Seq::empty()
    } else {
        hex_string(data.drop_last()) + hex_byte(data.last() as int)
    }
}

/// Every character of `text` is an upper-case hexadecimal digit.
pub open spec fn all_hex_digits(text: Seq<u8>) -> bool {
    forall|i: int| 0 <= i < text.len() ==> hex_value(#[trigger] text[i]) is Some
}

/// What is wrong with `text` as the text of a byte string of at most
/// `capacity` bytes, if anything: an odd number of characters, a character
/// that is no digit, or too many bytes.
pub open spec fn hex_string_fault(text: Seq<u8>, capacity: nat) -> Option<FieldError> {
    if text.len() % 2 != 0 {
        Some(FieldError::Length)
    } else if !all_hex_digits(text) {
        Some(FieldError::Digit)
    } else if text.len() / 2 > capacity {
        Some(FieldError::Range)
    } else {
        None
    }
}

/// Appends the text of `data`.
pub fn write_hex_string(out: &mut Vec<u8>, data: &[u8])
    ensures
        final(out)@ == old(out)@ + hex_string(data@),
{
    let mut i: usize = 0;
    proof {
        assert(data@.subrange(0, 0) =~= Seq::<u8>::empty());
        assert(out@ =~= old(out)@ + hex_string(data@.subrange(0, 0)));
    }
    while i < data.len()
        invariant
            i <= data@.len(),
            out@ == old(out)@ + hex_string(data@.subrange(0, i as int)),
        decreases data@.len() - i,
    {
        push_hex_byte(out, data[i]);
        proof {
            let upto = data@.subrange(0, i + 1);
            assert(upto.drop_last() =~= data@.subrange(0, i as int));
            assert(out@ =~= old(out)@ + hex_string(upto));
        }
        i = i + 1;
    }
    proof {
        assert(data@.subrange(0, data@.len() as int) =~= data@);
    }
}

/// Reads `text` as the text of a byte string of at most `capacity` bytes.
pub fn parse_hex_string(text: &[u8], capacity: usize) -> (r: Result<Vec<u8>, FieldError>)
    ensures
        r is Ok <==> hex_string_fault(text@, capacity as nat) is None,
        r matches Ok(data) ==> text@ == hex_string(data@) && data@.len() <= capacity,
        r matches Err(e) ==> hex_string_fault(text@, capacity as nat) == Some(e),
{
    if text.len() % 2 != 0 {
        return Err(FieldError::Length);
    }
    let mut i: usize = 0;
    while i < text.len()
        invariant
            i <= text@.len(),
            text@.len() % 2 == 0,
            forall|j: int| 0 <= j < i ==> hex_value(#[trigger] text@[j]) is Some,
        decreases text@.len() - i,
    {
        match hex_digit_value(text[i]) {
            Some(_) => {},
            None => {
                return Err(FieldError::Digit);
            },
        }
        i = i + 1;
    }
    let count: usize = text.len() / 2;
    if count > capacity {
        return Err(FieldError::Range);
    }
    let mut data: Vec<u8> = Vec::new();
    let mut k: usize = 0;
    proof {
        assert(text@.subrange(0, 0) =~= hex_string(data@));
    }
    while k < count
        invariant
            k <= count,
            count * 2 == text@.len() <= usize::MAX,
            all_hex_digits(text@),
            data@.len() == k,
            text@.subrange(0, 2 * k) == hex_string(data@),
        decreases count - k,
    {
        let high = hex_digit_value(text[2 * k]);
        let low = hex_digit_value(text[2 * k + 1]);
        assert(high is Some && low is Some);
        let byte: u8 = 16 * high.unwrap() + low.unwrap();
        let ghost before = data@;
        data.push(byte);
        proof {
            assert(data@.drop_last() =~= before);
            assert(hex_byte(byte as int) =~= seq![text@[2 * k], text@[2 * k + 1]]);
            assert(text@.subrange(0, 2 * (k + 1)) =~= text@.subrange(0, 2 * k) + hex_byte(
                byte as int,
            ));
        }
        k = k + 1;
    }
    proof {
        assert(text@.subrange(0, text@.len() as int) =~= text@);
    }
    Ok(data)
}

/// The text of a byte string has two characters for each byte, all of them
/// hexadecimal digits.
pub proof fn lemma_hex_string_well_formed(data: Seq<u8>)
    ensures
        hex_string(data).len() == 2 * data.len(),
        all_hex_digits(hex_string(data)),
    decreases data.len(),
{
    if data.len() > 0 {
        lemma_hex_string_well_formed(data.drop_last());
        let front = hex_string(data.drop_last());
        let text = hex_string(data);
        assert forall|i: int| 0 <= i < text.len() implies hex_value(#[trigger] text[i]) is Some by {
            if i < front.len() {
                assert(text[i] == front[i]);
            }
        }
    }
}

/// Two byte strings with the same text are the same.
pub proof fn lemma_hex_string_injective(a: Seq<u8>, b: Seq<u8>)
    requires
        hex_string(a) == hex_string(b),
    ensures
        a == b,
    decreases a.len(),
{
    lemma_hex_string_well_formed(a);
    lemma_hex_string_well_formed(b);
    if a.len() > 0 {
        let ta = hex_string(a);
        let tb = hex_string(b);
        let n = ta.len() as int;
        lemma_hex_string_well_formed(a.drop_last());
        lemma_hex_string_well_formed(b.drop_last());
        let la = hex_byte(a.last() as int);
        let lb = hex_byte(b.last() as int);
        assert(ta[n - 2] == la[0] && ta[n - 1] == la[1]);
        assert(tb[n - 2] == lb[0] && tb[n - 1] == lb[1]);
        let x = a.last() as int;
        let y = b.last() as int;
        assert(hex_digit(x / 16) == hex_digit(y / 16) && hex_digit(x % 16) == hex_digit(y % 16));
        assert(x / 16 == y / 16 && x % 16 == y % 16);
        assert(hex_string(a.drop_last()) =~= ta.subrange(0, n - 2));
        assert(hex_string(b.drop_last()) =~= tb.subrange(0, n - 2));
        lemma_hex_string_injective(a.drop_last(), b.drop_last());
        assert(a =~= a.drop_last().push(a.last()));
        assert(b =~= b.drop_last().push(b.last()));
    } else {
        assert(a =~= b);
    }
}

/// Round trip of the text of byte strings: what is written for a byte string
/// that fits is accepted, and only as the text of that byte string.
pub proof fn lemma_hex_string_round_trip(data: Seq<u8>, capacity: nat)
    requires
        data.len() <= capacity,
    ensures
        hex_string_fault(hex_string(data), capacity) is None,
        forall|other: Seq<u8>| #[trigger] hex_string(other) == hex_string(data) ==> other == data,
{
    lemma_hex_string_well_formed(data);
    assert forall|other: Seq<u8>| #[trigger] hex_string(other) == hex_string(data) implies other
        == data by {
        lemma_hex_string_injective(other, data);
    }
}

/// What is wrong with `text` as a token of at most `capacity` characters, if
/// anything: it is empty or too long.
pub open spec fn token_fault(text: Seq<u8>, capacity: nat) -> Option<FieldError> {
    if text.len() == 0 || text.len() > capacity {
        Some(FieldError::Length)
    } else {
        None
    }
}

/// Reads `text` as a token of at most `capacity` characters. The token is the
/// text as it stands.
pub fn parse_token(text: &[u8], capacity: usize) -> (r: Result<Vec<u8>, FieldError>)
    ensures
        r is Ok <==> token_fault(text@, capacity as nat) is None,
        r matches Ok(token) ==> token@ == text@,
        r matches Err(e) ==> token_fault(text@, capacity as nat) == Some(e),
{
    if text.len() == 0 || text.len() > capacity {
        Err(FieldError::Length)
    } else {
        Ok(to_vec(text))
    }
}

} // verus!
