//! The layout of a response payload: an optional label, then the fields,
//! separated by commas.
//!
//! A payload may begin with the label of the command that it answers, such
//! as `+JOIN_STD: `. The label runs from a plus sign up to the first colon;
//! the body begins behind the colon and the blanks that follow it.
use vstd::prelude::*;
use vstd::slice::slice_subrange;
use crate::codec::FieldError;
use crate::wire::{
    find_byte, first_byte, is_ascii_whitespace, lemma_first_byte_some, skip_whitespace, trim,
    trim_ascii, trim_start,
};

verus! {

/// What a label begins with.
pub const PLUS: u8 = 0x2B;

/// What a label ends with.
pub const LABEL_END: u8 = 0x3A;

/// Why a payload could not be decoded.
#[derive(Clone, Copy, Debug, PartialEq, Eq, Structural)]
pub enum DecodeError {
    /// The payload has another number of fields than the response.
    FieldCount,
    /// The field at position `index` is malformed.
    Field { index: usize, fault: FieldError },
}

/// `s` without its label, if it has one.
pub open spec fn strip_label(s: Seq<u8>) -> Seq<u8> {
    if s.len() > 0 && s[0] == PLUS {
        match first_byte(s, LABEL_END, 0) {
            Some(p) => trim_start(s.subrange(p + 1, s.len() as int)),
            None => s,
        }
    } else {
        s
    }
}

/// The body of a payload: the payload without the whitespace around it and
/// without its label.
pub open spec fn response_body(payload: Seq<u8>) -> Seq<u8> {
    strip_label(trim_ascii(payload))
}

/// The fields of `s` from offset `from` on: the stretches between one
/// separator and the next.
pub open spec fn fields_from(s: Seq<u8>, separator: u8, from: int) -> Seq<Seq<u8>>
    decreases s.len() - from,
{
    match first_byte(s, separator, from) {
        None => seq![s.subrange(from, s.len() as int)],
        Some(p) => {
            proof {
                lemma_first_byte_some(s, separator, from);
            }
            seq![s.subrange(from, p)] + fields_from(s, separator, p + 1)
        },
    }
}

/// The fields of `s`. There is always at least one; a text without a
/// separator is one field.
pub open spec fn fields(s: Seq<u8>, separator: u8) -> Seq<Seq<u8>> {
    fields_from(s, separator, 0)
}

/// The body of `payload`.
pub fn body_of(payload: &[u8]) -> (body: &[u8])
    ensures
        body@ == response_body(payload@),
{
    let text = trim(payload);
    if text.len() > 0 && text[0] == PLUS {
        match find_byte(text, LABEL_END, 0) {
            Some(p) => skip_whitespace(slice_subrange(text, p + 1, text.len())),
            None => text,
        }
    } else {
        text
    }
}

/// Splits `s` into its fields.
pub fn split_fields(s: &[u8], separator: u8) -> (parts: Vec<&[u8]>)
    ensures
        parts@.len() == fields(s@, separator).len(),
        forall|i: int|
            0 <= i < parts@.len() ==> (#[trigger] parts@[i])@ == fields(s@, separator)[i],
{
    let mut parts: Vec<&[u8]> = Vec::new();
    let mut from: usize = 0;
    let end: usize = s.len();
    loop
        invariant
            from <= end == s@.len(),
            parts@.len() + fields_from(s@, separator, from as int).len() == fields(
                s@,
                separator,
            ).len(),
            forall|i: int|
                0 <= i < parts@.len() ==> (#[trigger] parts@[i])@ == fields(s@, separator)[i],
            forall|i: int|
                0 <= i < fields_from(s@, separator, from as int).len() ==> fields_from(
                    s@,
                    separator,
                    from as int,
                )[i] == fields(s@, separator)[parts@.len() + i],
        decreases end - from,
    {
        let ghost rest = fields_from(s@, separator, from as int);
        let ghost done = parts@;
        match find_byte(s, separator, from) {
            Some(p) => {
                parts.push(slice_subrange(s, from, p));
                proof {
                    let tail = fields_from(s@, separator, p + 1);
                    assert(rest == seq![s@.subrange(from as int, p as int)] + tail);
                    assert(rest[0] == s@.subrange(from as int, p as int));
                    assert forall|i: int| 0 <= i < parts@.len() implies (#[trigger] parts@[i])@
                        == fields(s@, separator)[i] by {
                        if i < done.len() {
                            assert(parts@[i] == done[i]);
                        } else {
                            assert(rest[0] == fields(s@, separator)[done.len() as int]);
                        }
                    }
                    assert forall|i: int| 0 <= i < tail.len() implies tail[i] == fields(
                        s@,
                        separator,
                    )[parts@.len() + i] by {
                        assert(tail[i] == rest[i + 1]);
                        assert(rest[i + 1] == fields(s@, separator)[done.len() as int + (i + 1)]);
                    }
                }
                from = p + 1;
            },
            None => {
                parts.push(slice_subrange(s, from, end));
                proof {
                    assert(rest == seq![s@.subrange(from as int, end as int)]);
                    assert(rest[0] == s@.subrange(from as int, end as int));
                    assert forall|i: int| 0 <= i < parts@.len() implies (#[trigger] parts@[i])@
                        == fields(s@, separator)[i] by {
                        if i < done.len() {
                            assert(parts@[i] == done[i]);
                        } else {
                            assert(rest[0] == fields(s@, separator)[done.len() as int]);
                        }
                    }
                }
                return parts;
            },
        }
    }
}

/// A text that neither begins nor ends with whitespace and has no label is
/// its own body.
pub proof fn lemma_body_of_plain_text(text: Seq<u8>)
    requires
        text.len() > 0,
        !is_ascii_whitespace(text[0]),
        !is_ascii_whitespace(text.last()),
        text[0] != PLUS,
    ensures
        response_body(text) == text,
{
}

/// The first separator of a text is where a separator stands with none
/// before it.
pub proof fn lemma_first_byte_is(s: Seq<u8>, b: u8, from: int, at: int)
    requires
        0 <= from <= at < s.len(),
        s[at] == b,
        forall|i: int| from <= i < at ==> s[i] != b,
    ensures
        first_byte(s, b, from) == Some(at),
    decreases at - from,
{
    if from < at {
        lemma_first_byte_is(s, b, from + 1, at);
    }
}

/// A text without separator from `from` on has no first separator there.
pub proof fn lemma_first_byte_absent(s: Seq<u8>, b: u8, from: int)
    requires
        0 <= from,
        forall|i: int| from <= i < s.len() ==> s[i] != b,
    ensures
        first_byte(s, b, from) is None,
    decreases s.len() - from,
{
    if from < s.len() {
        lemma_first_byte_absent(s, b, from + 1);
    }
}

proof fn lemma_first_byte_shift(pre: Seq<u8>, rest: Seq<u8>, b: u8, j: int)
    requires
        0 <= j,
    ensures
        first_byte(pre + rest, b, pre.len() + j) == match first_byte(rest, b, j) {
            Some(p) => Some(pre.len() + p),
            None => None,
        },
    decreases rest.len() - j,
{
    if j < rest.len() {
        assert((pre + rest)[pre.len() + j] == rest[j]);
        if rest[j] != b {
            lemma_first_byte_shift(pre, rest, b, j + 1);
        }
    }
}

proof fn lemma_fields_from_shift(pre: Seq<u8>, rest: Seq<u8>, separator: u8, j: int)
    requires
        0 <= j <= rest.len(),
    ensures
        fields_from(pre + rest, separator, pre.len() + j) == fields_from(rest, separator, j),
    decreases rest.len() - j,
{
    let whole = pre + rest;
    lemma_first_byte_shift(pre, rest, separator, j);
    match first_byte(rest, separator, j) {
        None => {
            assert(whole.subrange(pre.len() + j, whole.len() as int) =~= rest.subrange(
                j,
                rest.len() as int,
            ));
        },
        Some(p) => {
            lemma_first_byte_some(rest, separator, j);
            assert(whole.subrange(pre.len() + j, pre.len() + p) =~= rest.subrange(j, p));
            lemma_fields_from_shift(pre, rest, separator, p + 1);
        },
    }
}

/// A text without separator is one field.
pub proof fn lemma_fields_single(text: Seq<u8>, separator: u8)
    requires
        forall|i: int| 0 <= i < text.len() ==> text[i] != separator,
    ensures
        fields(text, separator) == seq![text],
{
    lemma_first_byte_absent(text, separator, 0);
    assert(text.subrange(0, text.len() as int) =~= text);
}

/// A text without separator, a separator and more text: the first field is
/// the text in front, and the others are the fields of what follows.
pub proof fn lemma_fields_cons(first: Seq<u8>, separator: u8, rest: Seq<u8>)
    requires
        forall|i: int| 0 <= i < first.len() ==> first[i] != separator,
    ensures
        fields(first + seq![separator] + rest, separator) == seq![first] + fields(
            rest,
            separator,
        ),
{
    let pre = first + seq![separator];
    let whole = pre + rest;
    assert forall|i: int| 0 <= i < first.len() implies whole[i] != separator by {
        assert(whole[i] == first[i]);
    }
    lemma_first_byte_is(whole, separator, 0, first.len() as int);
    assert(whole.subrange(0, first.len() as int) =~= first);
    lemma_fields_from_shift(pre, rest, separator, 0);
}

} // verus!
