//! Laws of framing: what holds of the digester on every buffer.
//!
//! A frame of this modem's own shapes that fills a buffer exactly is a frame
//! only once it is complete: the digester asks for more bytes on every
//! shorter prefix of it. Once complete, the frame is what it is whatever
//! arrives behind it. And an acknowledgement at the start of a buffer is
//! taken for itself, whatever stands behind it.
use vstd::prelude::*;
use vstd::string::StringSliceAdditionalSpecFns;
use crate::digester::{
    digest_spec, error_of_frame, head_echo, head_echo_state, head_join_status, head_startup,
    lemma_stray_ack, lemma_success_envelope_bounds, line_shape, literal_shape, startup_shape,
    stray_ack, vendor_error, vendor_success, Classification, Digested, Scan,
};
use crate::envelope::{connect_tail, lemma_tails, ok_tail, success_envelope};
use crate::general::responses::{
    error_of_literal, is_error_literal, lemma_error_literal_bytes, lemma_unknown_error, Error,
    TransportError,
};
use crate::wire::{
    available, crlf, first_non_alphanumeric, first_occurrence, is_alphanumeric, lemma_crlf,
    lemma_first_non_alphanumeric_some, lemma_first_occurrence_is, lemma_first_occurrence_some,
    lemma_occurs_at_prefix, occurs_at, tag_at, TagMatch,
};

verus! {

/// The bytes of the four heads.
pub proof fn lemma_head_bytes()
    ensures
        head_echo() == seq![0x2Bu8, 0x41, 0x54, 0x3A, 0x20],
        head_echo_state() == seq![0x2Bu8, 0x41, 0x54, 0x45, 0x3A, 0x20],
        head_startup() == seq![0x2Bu8, 0x41, 0x54, 0x5A, 0x3A, 0x20],
        head_join_status() == seq![
            0x2Bu8,
            0x4A,
            0x4F,
            0x49,
            0x4E,
            0x5F,
            0x53,
            0x54,
            0x44,
            0x3A,
            0x20,
        ],
{
    reveal_strlit("+AT: ");
    reveal_strlit("+ATE: ");
    reveal_strlit("+ATZ: ");
    reveal_strlit("+JOIN_STD: ");
    vstd::string::is_ascii_spec_bytes("+AT: ");
    vstd::string::is_ascii_spec_bytes("+ATE: ");
    vstd::string::is_ascii_spec_bytes("+ATZ: ");
    vstd::string::is_ascii_spec_bytes("+JOIN_STD: ");
    assert(head_echo() =~= seq![0x2Bu8, 0x41, 0x54, 0x3A, 0x20]);
    assert(head_echo_state() =~= seq![0x2Bu8, 0x41, 0x54, 0x45, 0x3A, 0x20]);
    assert(head_startup() =~= seq![0x2Bu8, 0x41, 0x54, 0x5A, 0x3A, 0x20]);
    assert(head_join_status() =~= seq![
        0x2Bu8,
        0x4A,
        0x4F,
        0x49,
        0x4E,
        0x5F,
        0x53,
        0x54,
        0x44,
        0x3A,
        0x20,
    ]);
}

/// Precedence of the stray acknowledgement: a buffer that begins with it
/// yields it, with an empty payload and four bytes consumed, whatever the
/// other steps would make of the buffer.
pub proof fn lemma_stray_ack_precedence(s: Seq<u8>)
    requires
        s.len() >= 4,
        s.subrange(0, 4) == seq![0x4Fu8, 0x4B, 0x0D, 0x0A],
    ensures
        digest_spec(s) == Some(
            Digested {
                class: Classification::SolicitedSuccess,
                payload: Seq::<u8>::empty(),
                consumed: 4,
            },
        ),
{
    lemma_stray_ack();
    assert(stray_ack().subrange(0, 4) =~= stray_ack());
}

/// What a comparison says of a buffer limits what it can say of a prefix of
/// that buffer: a match can only turn into a wait for more bytes, and so can
/// a mismatch; a wait stays a wait.
pub proof fn lemma_tag_prefix(s: Seq<u8>, k: int, at: int, tag: Seq<u8>)
    requires
        0 <= at <= k <= s.len(),
    ensures
        tag_at(s, at, tag) is Matched ==> tag_at(s.subrange(0, k), at, tag) == (if k >= at
            + tag.len() {
            TagMatch::Matched
        } else {
            TagMatch::Incomplete
        }),
        tag_at(s, at, tag) is Incomplete ==> tag_at(s.subrange(0, k), at, tag) is Incomplete,
        tag_at(s, at, tag) is Mismatch ==> !(tag_at(s.subrange(0, k), at, tag) is Matched),
{
    let p = s.subrange(0, k);
    let n = available(s.len() as int, at, tag.len() as int);
    let m = available(p.len() as int, at, tag.len() as int);
    assert(m <= n);
    assert(p.subrange(at, at + m) =~= s.subrange(at, at + n).subrange(0, m));
    assert(tag.subrange(0, m) =~= tag.subrange(0, n).subrange(0, m));
    if tag_at(s, at, tag) is Mismatch && tag_at(p, at, tag) is Matched {
        assert(m == tag.len() && n == tag.len());
        assert(p.subrange(at, at + m) =~= s.subrange(at, at + n));
    }
}

/// A prefix that ends before the end of the first occurrence of a pattern
/// holds no occurrence of it.
pub proof fn lemma_no_occurrence_in_prefix(s: Seq<u8>, pat: Seq<u8>, from: int, k: int)
    requires
        0 <= from,
        0 <= k <= s.len(),
        first_occurrence(s, pat, from) matches Some(e) && k < e + pat.len(),
    ensures
        first_occurrence(s.subrange(0, k), pat, from) is None,
{
    let p = s.subrange(0, k);
    if first_occurrence(p, pat, from) is Some {
        let x = first_occurrence(p, pat, from)->0;
        lemma_first_occurrence_some(p, pat, from);
        lemma_first_occurrence_some(s, pat, from);
        lemma_occurs_at_prefix(s, pat, x, k);
    }
}

/// The first byte that is no letter or digit is the same in a prefix that
/// holds it, and a prefix that does not hold it has none.
pub proof fn lemma_first_non_alphanumeric_prefix(s: Seq<u8>, from: int, k: int)
    requires
        0 <= from <= k <= s.len(),
    ensures
        first_non_alphanumeric(s.subrange(0, k), from) == match first_non_alphanumeric(s, from) {
            Some(q) => if q < k {
                Some(q)
            } else {
                None
            },
            None => None,
        },
    decreases k - from,
{
    let p = s.subrange(0, k);
    if from < k {
        assert(p[from] == s[from]);
        if is_alphanumeric(s[from]) {
            lemma_first_non_alphanumeric_prefix(s, from + 1, k);
        }
    } else {
        if first_non_alphanumeric(s, from) is Some {
            lemma_first_non_alphanumeric_some(s, from);
        }
    }
}

/// A line that fills the buffer is not complete before its last byte, and a
/// buffer that is no such line has no prefix that is one.
pub proof fn lemma_line_shape_prefix(s: Seq<u8>, k: int, head: Seq<u8>, keep_head: bool)
    requires
        0 <= k < s.len(),
    ensures
        line_shape(s, head, keep_head) is NoMatch ==> !(line_shape(
            s.subrange(0, k),
            head,
            keep_head,
        ) is Matched),
        line_shape(s, head, keep_head) matches Scan::Matched(f) && f.consumed == s.len()
            ==> line_shape(s.subrange(0, k), head, keep_head) is Incomplete,
{
    let p = s.subrange(0, k);
    lemma_tag_prefix(s, k, 0, head);
    lemma_crlf();
    if line_shape(s, head, keep_head) matches Scan::Matched(f) && f.consumed == s.len() {
        if tag_at(p, 0, head) is Matched {
            lemma_no_occurrence_in_prefix(s, crlf(), head.len() as int, k);
        }
    }
}

/// A startup preamble that fills the buffer is not complete before its last
/// byte, and a buffer that is no startup preamble has no prefix that is one.
pub proof fn lemma_startup_shape_prefix(s: Seq<u8>, k: int)
    requires
        0 <= k < s.len(),
    ensures
        startup_shape(s) is NoMatch ==> !(startup_shape(s.subrange(0, k)) is Matched),
        startup_shape(s) matches Scan::Matched(f) && f.consumed == s.len() ==> startup_shape(
            s.subrange(0, k),
        ) is Incomplete,
{
    let p = s.subrange(0, k);
    let head = head_startup();
    lemma_tag_prefix(s, k, 0, head);
    lemma_crlf();
    if tag_at(s, 0, head) is Matched && tag_at(p, 0, head) is Matched {
        lemma_first_non_alphanumeric_prefix(s, head.len() as int, k);
        if first_non_alphanumeric(s, head.len() as int) is Some {
            let q = first_non_alphanumeric(s, head.len() as int)->0;
            lemma_first_non_alphanumeric_some(s, head.len() as int);
            if q < k {
                lemma_tag_prefix(s, k, q, crlf());
                if tag_at(s, q, crlf()) is Matched && tag_at(p, q, crlf()) is Matched {
                    if first_occurrence(s, crlf(), q + 2) is Some {
                        let e = first_occurrence(s, crlf(), q + 2)->0;
                        if e + 2 == s.len() {
                            lemma_no_occurrence_in_prefix(s, crlf(), q + 2, k);
                        }
                    }
                }
            }
        }
    }
}

/// An error line that fills the buffer is not complete before its last byte,
/// and a buffer that is no such line has no prefix that is one.
pub proof fn lemma_literal_shape_prefix(s: Seq<u8>, k: int, literal: Seq<u8>)
    requires
        0 <= k < s.len(),
    ensures
        literal_shape(s, literal) is NoMatch ==> !(literal_shape(s.subrange(0, k), literal)
            is Matched),
        literal_shape(s, literal) matches Scan::Matched(f) && f.consumed == s.len()
            ==> literal_shape(s.subrange(0, k), literal) is Incomplete,
{
    let p = s.subrange(0, k);
    lemma_tag_prefix(s, k, 0, literal);
    lemma_crlf();
    if tag_at(s, 0, literal) is Matched && tag_at(p, 0, literal) is Matched {
        lemma_tag_prefix(s, k, literal.len() as int, crlf());
    }
}

/// A buffer in which the line terminator stands at most once holds no
/// generic success envelope: both closing lines hold it twice.
pub proof fn lemma_envelope_needs_two_terminators(p: Seq<u8>)
    requires
        forall|x: int, y: int| occurs_at(p, crlf(), x) && occurs_at(p, crlf(), y) ==> x == y,
    ensures
        success_envelope(p) is None,
{
    lemma_tails();
    lemma_crlf();
    if first_occurrence(p, ok_tail(), 0) is Some {
        let x = first_occurrence(p, ok_tail(), 0)->0;
        lemma_first_occurrence_some(p, ok_tail(), 0);
        let found = p.subrange(x, x + 6);
        assert(p.subrange(x, x + 2) =~= found.subrange(0, 2));
        assert(p.subrange(x + 4, x + 6) =~= found.subrange(4, 6));
        assert(found.subrange(0, 2) =~= crlf());
        assert(found.subrange(4, 6) =~= crlf());
        assert(occurs_at(p, crlf(), x) && occurs_at(p, crlf(), x + 4));
    }
    if first_occurrence(p, connect_tail(), 0) is Some {
        let x = first_occurrence(p, connect_tail(), 0)->0;
        lemma_first_occurrence_some(p, connect_tail(), 0);
        let found = p.subrange(x, x + 11);
        assert(p.subrange(x, x + 2) =~= found.subrange(0, 2));
        assert(p.subrange(x + 9, x + 11) =~= found.subrange(9, 11));
        assert(found.subrange(0, 2) =~= crlf());
        assert(found.subrange(9, 11) =~= crlf());
        assert(occurs_at(p, crlf(), x) && occurs_at(p, crlf(), x + 9));
    }
}

/// Where the line terminator stands, a carriage return stands.
pub proof fn lemma_terminator_starts_with_cr(s: Seq<u8>, x: int)
    requires
        occurs_at(s, crlf(), x),
    ensures
        0 <= x < s.len(),
        s[x] == 0x0D,
{
    lemma_crlf();
    assert(s.subrange(x, x + 2)[0] == s[x]);
}

/// The success shapes on a prefix: a frame that fills the buffer is not
/// complete before its last byte, and a buffer that fits no shape has no
/// prefix that is a frame.
pub proof fn lemma_vendor_success_prefix(s: Seq<u8>, k: int)
    requires
        0 <= k < s.len(),
    ensures
        vendor_success(s) is NoMatch ==> !(vendor_success(s.subrange(0, k)) is Matched),
        vendor_success(s) matches Scan::Matched(f) && f.consumed == s.len() ==> vendor_success(
            s.subrange(0, k),
        ) is Incomplete,
{
    lemma_line_shape_prefix(s, k, head_echo(), false);
    lemma_line_shape_prefix(s, k, head_echo_state(), true);
    lemma_startup_shape_prefix(s, k);
    lemma_line_shape_prefix(s, k, head_join_status(), true);
}

/// The error literals on a prefix: an error line that fills the buffer is
/// not complete before its last byte, and a buffer that is no error line has
/// no prefix that is one.
pub proof fn lemma_vendor_error_prefix(s: Seq<u8>, k: int)
    requires
        0 <= k < s.len(),
    ensures
        vendor_error(s) is NoMatch ==> !(vendor_error(s.subrange(0, k)) is Matched),
        vendor_error(s) matches Scan::Matched(f) && f.consumed == s.len() ==> vendor_error(
            s.subrange(0, k),
        ) is Incomplete,
{
    lemma_literal_shape_prefix(s, k, "ERROR(-1)".spec_bytes());
    lemma_literal_shape_prefix(s, k, "ERROR(-2)".spec_bytes());
    lemma_literal_shape_prefix(s, k, "ERROR(-3)".spec_bytes());
    lemma_literal_shape_prefix(s, k, "ERROR(-5)".spec_bytes());
    lemma_literal_shape_prefix(s, k, "ERROR(-7)".spec_bytes());
}

/// No strict prefix of a line that fills the buffer holds a line terminator,
/// provided that the head of the line holds no carriage return.
pub proof fn lemma_line_frame_terminators(s: Seq<u8>, k: int, head: Seq<u8>, keep_head: bool)
    requires
        0 <= k < s.len(),
        line_shape(s, head, keep_head) matches Scan::Matched(f) && f.consumed == s.len(),
        forall|i: int| 0 <= i < head.len() ==> head[i] != 0x0D,
    ensures
        forall|x: int| !occurs_at(s.subrange(0, k), crlf(), x),
{
    let p = s.subrange(0, k);
    lemma_crlf();
    lemma_first_occurrence_some(s, crlf(), head.len() as int);
    assert forall|x: int| !occurs_at(p, crlf(), x) by {
        if occurs_at(p, crlf(), x) {
            lemma_occurs_at_prefix(s, crlf(), x, k);
            lemma_terminator_starts_with_cr(s, x);
            if x < head.len() {
                assert(s.subrange(0, head.len() as int)[x] == s[x]);
                assert(head.subrange(0, head.len() as int) =~= head);
            }
        }
    }
}

/// A strict prefix of a startup preamble that fills the buffer holds the
/// line terminator at most once.
pub proof fn lemma_startup_frame_terminators(s: Seq<u8>, k: int)
    requires
        0 <= k < s.len(),
        startup_shape(s) matches Scan::Matched(f) && f.consumed == s.len(),
    ensures
        forall|x: int, y: int|
            occurs_at(s.subrange(0, k), crlf(), x) && occurs_at(s.subrange(0, k), crlf(), y) ==> x
                == y,
{
    let p = s.subrange(0, k);
    let head = head_startup();
    lemma_crlf();
    lemma_head_bytes();
    let q = first_non_alphanumeric(s, head.len() as int)->0;
    lemma_first_non_alphanumeric_some(s, head.len() as int);
    lemma_first_occurrence_some(s, crlf(), q + 2);
    assert(s.subrange(q, q + 2)[1] == s[q + 1]);
    assert forall|x: int| occurs_at(p, crlf(), x) implies x == q by {
        lemma_occurs_at_prefix(s, crlf(), x, k);
        lemma_terminator_starts_with_cr(s, x);
        if x < head.len() {
            assert(s.subrange(0, head.len() as int)[x] == s[x]);
            assert(head.subrange(0, head.len() as int) =~= head);
        }
    }
}

/// No strict prefix of an error line that fills the buffer holds a line
/// terminator, provided that the literal holds no carriage return.
pub proof fn lemma_literal_frame_terminators(s: Seq<u8>, k: int, literal: Seq<u8>)
    requires
        0 <= k < s.len(),
        literal_shape(s, literal) matches Scan::Matched(f) && f.consumed == s.len(),
        forall|i: int| 0 <= i < literal.len() ==> literal[i] != 0x0D,
    ensures
        forall|x: int| !occurs_at(s.subrange(0, k), crlf(), x),
{
    let p = s.subrange(0, k);
    lemma_crlf();
    assert forall|x: int| !occurs_at(p, crlf(), x) by {
        if occurs_at(p, crlf(), x) {
            lemma_occurs_at_prefix(s, crlf(), x, k);
            lemma_terminator_starts_with_cr(s, x);
            assert(s.subrange(0, literal.len() as int)[x] == s[x]);
            assert(literal.subrange(0, literal.len() as int) =~= literal);
        }
    }
}

/// The buffer is one frame of this modem's own kinds and nothing else: the
/// stray acknowledgement, or a success shape or an error line that takes up
/// every byte of it.
pub open spec fn is_vendor_frame(s: Seq<u8>) -> bool {
    ||| s == stray_ack()
    ||| fills(vendor_success(s), s)
    ||| vendor_success(s) is NoMatch && fills(vendor_error(s), s)
}

/// The matcher found a frame that takes up every byte of the buffer.
pub open spec fn fills(scan: Scan, s: Seq<u8>) -> bool {
    scan matches Scan::Matched(f) && f.consumed == s.len()
}

/// Fragmentation invariance: of a buffer that is one frame of this modem's
/// own kinds, every strict prefix makes the digester ask for more bytes. So
/// a frame that arrives in pieces is digested once, when its last byte is
/// there, and then as it would have been had it come in one piece.
pub proof fn lemma_fragmentation_invariance(s: Seq<u8>, k: int)
    requires
        is_vendor_frame(s),
        0 <= k < s.len(),
    ensures
        digest_spec(s.subrange(0, k)) is None,
{
    lemma_stray_ack();
    if s == stray_ack() {
        lemma_stray_ack_prefix(k);
    } else {
        lemma_shape_prefix(s, k);
    }
}

/// The prefixes of a success shape or an error line that fills the buffer:
/// the digester asks for more bytes on each of them.
proof fn lemma_shape_prefix(s: Seq<u8>, k: int)
    requires
        fills(vendor_success(s), s) || (vendor_success(s) is NoMatch && fills(vendor_error(s), s)),
        0 <= k < s.len(),
    ensures
        digest_spec(s.subrange(0, k)) is None,
{
    let p = s.subrange(0, k);
    lemma_head_bytes();
    lemma_error_literal_bytes();
    lemma_stray_ack();
    lemma_crlf();
    lemma_vendor_success_prefix(s, k);
    lemma_vendor_error_prefix(s, k);
    if vendor_success(s) is Matched {
        if line_shape(s, head_echo(), false) is Matched {
            lemma_line_frame_terminators(s, k, head_echo(), false);
        } else if line_shape(s, head_echo_state(), true) is Matched {
            lemma_line_frame_terminators(s, k, head_echo_state(), true);
        } else if startup_shape(s) is Matched {
            lemma_startup_frame_terminators(s, k);
        } else {
            lemma_line_frame_terminators(s, k, head_join_status(), true);
        }
        assert(s.subrange(0, 1)[0] == s[0]);
        assert(s[0] == 0x2B) by {
            assert(head_echo().subrange(0, 1)[0] == 0x2B);
            assert(head_echo_state().subrange(0, 1)[0] == 0x2B);
            assert(head_startup().subrange(0, 1)[0] == 0x2B);
            assert(head_join_status().subrange(0, 1)[0] == 0x2B);
            lemma_first_byte_of_match(s, head_echo());
            lemma_first_byte_of_match(s, head_echo_state());
            lemma_first_byte_of_match(s, head_startup());
            lemma_first_byte_of_match(s, head_join_status());
        }
    } else {
        let l1 = "ERROR(-1)".spec_bytes();
        let l2 = "ERROR(-2)".spec_bytes();
        let l3 = "ERROR(-3)".spec_bytes();
        let l5 = "ERROR(-5)".spec_bytes();
        let l7 = "ERROR(-7)".spec_bytes();
        if literal_shape(s, l1) is Matched {
            lemma_literal_frame_terminators(s, k, l1);
        } else if literal_shape(s, l2) is Matched {
            lemma_literal_frame_terminators(s, k, l2);
        } else if literal_shape(s, l3) is Matched {
            lemma_literal_frame_terminators(s, k, l3);
        } else if literal_shape(s, l5) is Matched {
            lemma_literal_frame_terminators(s, k, l5);
        } else {
            lemma_literal_frame_terminators(s, k, l7);
        }
        assert(s[0] == 0x45) by {
            lemma_first_byte_of_match(s, l1);
            lemma_first_byte_of_match(s, l2);
            lemma_first_byte_of_match(s, l3);
            lemma_first_byte_of_match(s, l5);
            lemma_first_byte_of_match(s, l7);
        }
    }
    lemma_envelope_needs_two_terminators(p);
    assert(!(tag_at(p, 0, stray_ack()) is Matched)) by {
        if k >= 4 {
            assert(p.subrange(0, 4)[0] == s[0]);
            assert(stray_ack().subrange(0, 4)[0] == 0x4F);
        }
    }
}

/// A buffer that begins with a literal begins with the first byte of it.
pub proof fn lemma_first_byte_of_match(s: Seq<u8>, tag: Seq<u8>)
    requires
        tag.len() > 0,
    ensures
        tag_at(s, 0, tag) is Matched ==> s.len() > 0 && s[0] == tag[0],
{
    if tag_at(s, 0, tag) is Matched {
        assert(s.subrange(0, tag.len() as int)[0] == s[0]);
        assert(tag.subrange(0, tag.len() as int)[0] == tag[0]);
    }
}

/// The payload of an error line of this modem is one of the five error
/// literals, and so stands for an error kind other than `Unknown`.
pub proof fn lemma_vendor_error_payload(s: Seq<u8>)
    requires
        vendor_error(s) is Matched,
    ensures
        is_error_literal(s.subrange(vendor_error(s)->0.start, vendor_error(s)->0.end)),
        error_of_literal(s.subrange(vendor_error(s)->0.start, vendor_error(s)->0.end))
            != Error::Unknown,
        error_of_frame(
            Classification::SolicitedError(TransportError::Custom),
            s.subrange(vendor_error(s)->0.start, vendor_error(s)->0.end),
        ) matches Some(kind) && kind != Error::Unknown,
{
    let f = vendor_error(s)->0;
    lemma_literal_payload(s, "ERROR(-1)".spec_bytes());
    lemma_literal_payload(s, "ERROR(-2)".spec_bytes());
    lemma_literal_payload(s, "ERROR(-3)".spec_bytes());
    lemma_literal_payload(s, "ERROR(-5)".spec_bytes());
    lemma_literal_payload(s, "ERROR(-7)".spec_bytes());
    lemma_unknown_error(s.subrange(f.start, f.end));
}

proof fn lemma_literal_payload(s: Seq<u8>, literal: Seq<u8>)
    ensures
        literal_shape(s, literal) matches Scan::Matched(f) ==> s.subrange(f.start, f.end)
            == literal,
{
    assert(literal.subrange(0, literal.len() as int) =~= literal);
}

/// The first occurrence of a pattern in a prefix is the first occurrence in
/// the whole.
pub proof fn lemma_first_occurrence_extends(s: Seq<u8>, pat: Seq<u8>, from: int, k: int)
    requires
        0 <= from,
        0 <= k <= s.len(),
        first_occurrence(s.subrange(0, k), pat, from) is Some,
    ensures
        first_occurrence(s, pat, from) == first_occurrence(s.subrange(0, k), pat, from),
{
    let p = s.subrange(0, k);
    let e = first_occurrence(p, pat, from)->0;
    lemma_first_occurrence_some(p, pat, from);
    lemma_occurs_at_prefix(s, pat, e, k);
    assert forall|q: int| from <= q < e implies !occurs_at(s, pat, q) by {
        lemma_occurs_at_prefix(s, pat, q, k);
    }
    lemma_first_occurrence_is(s, pat, from, e);
}

/// A frame of the success shapes stays what it is when more bytes arrive
/// behind it: its payload and its length are fixed by the frame itself, not
/// by what the buffer holds beyond it.
pub proof fn lemma_vendor_success_stable(s: Seq<u8>, k: int)
    requires
        0 <= k <= s.len(),
        vendor_success(s.subrange(0, k)) is Matched,
    ensures
        vendor_success(s) == vendor_success(s.subrange(0, k)),
{
    lemma_line_shape_stable(s, k, head_echo(), false);
    lemma_line_shape_stable(s, k, head_echo_state(), true);
    lemma_startup_shape_stable(s, k);
    lemma_line_shape_stable(s, k, head_join_status(), true);
}

/// An error line of this modem stays what it is when more bytes arrive
/// behind it.
pub proof fn lemma_vendor_error_stable(s: Seq<u8>, k: int)
    requires
        0 <= k <= s.len(),
        vendor_error(s.subrange(0, k)) is Matched,
    ensures
        vendor_error(s) == vendor_error(s.subrange(0, k)),
{
    lemma_literal_shape_stable(s, k, "ERROR(-1)".spec_bytes());
    lemma_literal_shape_stable(s, k, "ERROR(-2)".spec_bytes());
    lemma_literal_shape_stable(s, k, "ERROR(-3)".spec_bytes());
    lemma_literal_shape_stable(s, k, "ERROR(-5)".spec_bytes());
    lemma_literal_shape_stable(s, k, "ERROR(-7)".spec_bytes());
}

proof fn lemma_line_shape_stable(s: Seq<u8>, k: int, head: Seq<u8>, keep_head: bool)
    requires
        0 <= k <= s.len(),
    ensures
        line_shape(s.subrange(0, k), head, keep_head) is Matched ==> line_shape(s, head, keep_head)
            == line_shape(s.subrange(0, k), head, keep_head),
        line_shape(s.subrange(0, k), head, keep_head) is NoMatch ==> line_shape(
            s,
            head,
            keep_head,
        ) is NoMatch,
{
    let p = s.subrange(0, k);
    lemma_tag_prefix(s, k, 0, head);
    if line_shape(p, head, keep_head) is Matched {
        lemma_first_occurrence_extends(s, crlf(), head.len() as int, k);
    }
}

proof fn lemma_startup_shape_stable(s: Seq<u8>, k: int)
    requires
        0 <= k <= s.len(),
    ensures
        startup_shape(s.subrange(0, k)) is Matched ==> startup_shape(s) == startup_shape(
            s.subrange(0, k),
        ),
        startup_shape(s.subrange(0, k)) is NoMatch ==> startup_shape(s) is NoMatch,
{
    let p = s.subrange(0, k);
    let head = head_startup();
    lemma_tag_prefix(s, k, 0, head);
    lemma_crlf();
    if tag_at(p, 0, head) is Matched {
        lemma_first_non_alphanumeric_prefix(s, head.len() as int, k);
        if first_non_alphanumeric(p, head.len() as int) is Some {
            let q = first_non_alphanumeric(p, head.len() as int)->0;
            lemma_first_non_alphanumeric_some(p, head.len() as int);
            lemma_tag_prefix(s, k, q, crlf());
            if startup_shape(p) is Matched {
                lemma_first_occurrence_extends(s, crlf(), q + 2, k);
            }
        }
    }
}

proof fn lemma_literal_shape_stable(s: Seq<u8>, k: int, literal: Seq<u8>)
    requires
        0 <= k <= s.len(),
    ensures
        literal_shape(s.subrange(0, k), literal) is Matched ==> literal_shape(s, literal)
            == literal_shape(s.subrange(0, k), literal),
        literal_shape(s.subrange(0, k), literal) is NoMatch ==> literal_shape(s, literal)
            is NoMatch,
{
    let p = s.subrange(0, k);
    lemma_tag_prefix(s, k, 0, literal);
    if tag_at(p, 0, literal) is Matched {
        lemma_tag_prefix(s, k, literal.len() as int, crlf());
    }
}

/// The prefixes of the stray acknowledgement: the digester asks for more
/// bytes on each of them.
proof fn lemma_stray_ack_prefix(k: int)
    requires
        0 <= k < 4,
    ensures
        digest_spec(stray_ack().subrange(0, k)) is None,
{
    let s = stray_ack();
    let p = s.subrange(0, k);
    lemma_stray_ack();
    lemma_head_bytes();
    lemma_error_literal_bytes();
    lemma_tails();
    assert(first_occurrence(p, ok_tail(), 0) is None);
    assert(first_occurrence(p, connect_tail(), 0) is None);
    if k >= 1 {
        assert(p[0] == 0x4F);
        lemma_first_byte_of_match(p, head_echo());
        lemma_first_byte_of_match(p, head_echo_state());
        lemma_first_byte_of_match(p, head_startup());
        lemma_first_byte_of_match(p, head_join_status());
        lemma_first_byte_of_match(p, "ERROR(-1)".spec_bytes());
        lemma_first_byte_of_match(p, "ERROR(-2)".spec_bytes());
        lemma_first_byte_of_match(p, "ERROR(-3)".spec_bytes());
        lemma_first_byte_of_match(p, "ERROR(-5)".spec_bytes());
        lemma_first_byte_of_match(p, "ERROR(-7)".spec_bytes());
        lemma_mismatch_at_start(p, head_echo());
        lemma_mismatch_at_start(p, head_echo_state());
        lemma_mismatch_at_start(p, head_startup());
        lemma_mismatch_at_start(p, head_join_status());
        lemma_mismatch_at_start(p, "ERROR(-1)".spec_bytes());
        lemma_mismatch_at_start(p, "ERROR(-2)".spec_bytes());
        lemma_mismatch_at_start(p, "ERROR(-3)".spec_bytes());
        lemma_mismatch_at_start(p, "ERROR(-5)".spec_bytes());
        lemma_mismatch_at_start(p, "ERROR(-7)".spec_bytes());
    }
}

/// A buffer whose first byte is not the first byte of a literal does not
/// agree with the literal.
proof fn lemma_mismatch_at_start(s: Seq<u8>, tag: Seq<u8>)
    requires
        s.len() > 0,
        tag.len() > 0,
        s[0] != tag[0],
    ensures
        tag_at(s, 0, tag) is Mismatch,
{
    let n = available(s.len() as int, 0, tag.len() as int);
    assert(s.subrange(0, n)[0] != tag.subrange(0, n)[0]);
}

/// Progress: a frame that the digester finds takes up at least one byte of
/// the buffer and no more than the buffer holds. What is left for the next
/// call is therefore shorter than what this call saw, and holds none of the
/// bytes of the frame.
pub proof fn lemma_digest_progress(s: Seq<u8>)
    ensures
        digest_spec(s) matches Some(d) ==> 1 <= d.consumed <= s.len(),
{
    lemma_stray_ack();
    lemma_crlf();
    lemma_head_bytes();
    lemma_error_literal_bytes();
    lemma_success_envelope_bounds(s);
    if vendor_success(s) is Matched {
        lemma_line_frame_bounds(s, head_echo(), false);
        lemma_line_frame_bounds(s, head_echo_state(), true);
        lemma_line_frame_bounds(s, head_join_status(), true);
        if startup_shape(s) is Matched {
            let q = first_non_alphanumeric(s, head_startup().len() as int)->0;
            lemma_first_occurrence_some(s, crlf(), q + 2);
        }
    }
}

proof fn lemma_line_frame_bounds(s: Seq<u8>, head: Seq<u8>, keep_head: bool)
    ensures
        line_shape(s, head, keep_head) matches Scan::Matched(f) ==> 1 <= f.consumed <= s.len(),
{
    lemma_crlf();
    if line_shape(s, head, keep_head) is Matched {
        lemma_first_occurrence_some(s, crlf(), head.len() as int);
    }
}

} // verus!
