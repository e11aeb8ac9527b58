//! The response digester: looks at the unconsumed bytes received from the
//! modem and tells whether they begin with a complete frame, which kind of
//! frame it is, where its payload lies and how many bytes it takes up.
//!
//! The digester keeps no state. Whatever it has not consumed is presented
//! again on the next call, possibly with more bytes behind it.
use vstd::prelude::*;
use vstd::slice::slice_subrange;
use vstd::string::StringSliceAdditionalSpecFns;
use crate::envelope::{
    connect_tail, error_line, generic_error, generic_success, lemma_tails, ok_tail,
    success_envelope,
};
use crate::general::responses::{
    error_kind_of, error_of_literal, error_of_transport, Error, TransportError,
};
use crate::urc::notification;
use crate::wire::{
    crlf, find_first, find_non_alphanumeric, first_non_alphanumeric, first_occurrence,
    lemma_crlf, lemma_first_occurrence_some, lemma_trim_is_subrange, match_tag, tag_at,
    TagMatch,
};

verus! {

/// Why a matcher did not produce a frame.
#[derive(Clone, Copy, Debug, PartialEq, Eq, Structural)]
pub enum ParseError {
    /// The bytes seen so far agree with a shape, and more are needed.
    Incomplete,
    /// The bytes fit no shape of this matcher.
    NoMatch,
}

/// What a frame is.
#[derive(Clone, Copy, Debug, PartialEq, Eq, Structural)]
pub enum Classification {
    /// The successful response to the command in flight.
    SolicitedSuccess,
    /// The failed response to the command in flight, with the kind of failure.
    SolicitedError(TransportError),
    /// A notification that the modem sent of its own accord.
    Unsolicited,
}

/// The error kind that a frame reports, if it is a failed response: for an
/// error line of this modem the kind that its literal stands for, for every
/// other error the kind under which its transport error is reported.
pub open spec fn error_of_frame(class: Classification, payload: Seq<u8>) -> Option<Error> {
    match class {
        Classification::SolicitedError(TransportError::Custom) => Some(error_of_literal(payload)),
        Classification::SolicitedError(kind) => Some(error_of_transport(kind)),
        _ => None,
    }
}

impl Classification {
    /// The error kind that a frame of this kind with this payload reports, or
    /// `None` if the frame is no failed response.
    pub fn error_kind(&self, payload: &[u8]) -> (r: Option<Error>)
        ensures
            r == error_of_frame(*self, payload@),
    {
        match self {
            Classification::SolicitedError(TransportError::Custom) => Some(
                error_kind_of(payload),
            ),
            Classification::SolicitedError(kind) => Some(Error::from(*kind)),
            _ => None,
        }
    }
}

/// What the digester found at the start of the buffer.
#[derive(Clone, Copy, Debug, PartialEq, Eq)]
pub enum Verdict<'a> {
    /// No complete frame yet: come back with more bytes.
    Incomplete,
    /// A complete frame of the given kind, with its payload.
    Matched { class: Classification, payload: &'a [u8] },
}

/// A frame found at the start of a buffer: its payload is the bytes from
/// `start` up to `end`, and the frame as a whole takes up `consumed` bytes.
pub ghost struct Frame {
    pub start: int,
    pub end: int,
    pub consumed: int,
}

/// What one matcher makes of a buffer.
pub ghost enum Scan {
    NoMatch,
    Incomplete,
    Matched(Frame),
}

/// The executable form of [`Scan`].
#[derive(Clone, Copy)]
enum Span {
    NoMatch,
    Incomplete,
    Matched { start: usize, end: usize, consumed: usize },
}

impl Span {
    spec fn view(&self) -> Scan {
        match *self {
            Span::NoMatch => Scan::NoMatch,
            Span::Incomplete => Scan::Incomplete,
            Span::Matched { start, end, consumed } => Scan::Matched(
                Frame { start: start as int, end: end as int, consumed: consumed as int },
            ),
        }
    }
}

/// A digested frame: its kind, its payload and the number of bytes that the
/// frame takes up at the start of the buffer.
pub ghost struct Digested {
    pub class: Classification,
    pub payload: Seq<u8>,
    pub consumed: int,
}

/// The acknowledgement that the modem sends outside any exchange.
pub open spec fn stray_ack() -> Seq<u8> {
    "OK\r\n".spec_bytes()
}

/// Head of the labelled echo line.
pub open spec fn head_echo() -> Seq<u8> {
    "+AT: ".spec_bytes()
}

/// Head of the echo-state line.
pub open spec fn head_echo_state() -> Seq<u8> {
    "+ATE: ".spec_bytes()
}

/// Head of the preamble that the modem sends when it starts up or is reset.
pub open spec fn head_startup() -> Seq<u8> {
    "+ATZ: ".spec_bytes()
}

/// Head of the join-status line.
pub open spec fn head_join_status() -> Seq<u8> {
    "+JOIN_STD: ".spec_bytes()
}

/// Ordered choice: the first matcher that does not say `NoMatch` decides,
/// whether it found a frame or asks for more bytes.
pub open spec fn or_else(first: Scan, second: Scan) -> Scan {
    if first is NoMatch {
        second
    } else {
        first
    }
}

/// A line that begins with `head` and runs up to the first line terminator
/// behind it. The payload is the text between head and terminator, with the
/// head itself where `keep_head` is set.
pub open spec fn line_shape(s: Seq<u8>, head: Seq<u8>, keep_head: bool) -> Scan {
    match tag_at(s, 0, head) {
        TagMatch::Mismatch => Scan::NoMatch,
        TagMatch::Incomplete => Scan::Incomplete,
        TagMatch::Matched => match first_occurrence(s, crlf(), head.len() as int) {
            None => Scan::Incomplete,
            Some(p) => Scan::Matched(
                Frame {
                    start: if keep_head {
                        0
                    } else {
                        head.len() as int
                    },
                    end: p,
                    consumed: p + crlf().len(),
                },
            ),
        },
    }
}

/// The startup preamble: the head and a run of letters and digits, which
/// together are the payload, then a line terminator and one more line with
/// its own terminator.
pub open spec fn startup_shape(s: Seq<u8>) -> Scan {
    match tag_at(s, 0, head_startup()) {
        TagMatch::Mismatch => Scan::NoMatch,
        TagMatch::Incomplete => Scan::Incomplete,
        TagMatch::Matched => match first_non_alphanumeric(s, head_startup().len() as int) {
            None => Scan::Incomplete,
            Some(q) => match tag_at(s, q, crlf()) {
                TagMatch::Mismatch => Scan::NoMatch,
                TagMatch::Incomplete => Scan::Incomplete,
                TagMatch::Matched => match first_occurrence(s, crlf(), q + crlf().len()) {
                    None => Scan::Incomplete,
                    Some(p) => Scan::Matched(
                        Frame { start: 0, end: q, consumed: p + crlf().len() },
                    ),
                },
            },
        },
    }
}

/// The success shapes that are particular to this modem, in the order in
/// which they are tried: labelled echo line, echo-state line, startup
/// preamble, join-status line.
///
/// The echo-state line may be closed by a bare line terminator or by `OK` and
/// a line terminator. Its payload ends at the first line terminator in either
/// case, so the second form is the first one with an acknowledgement behind
/// it, which is left in the buffer.
pub open spec fn vendor_success(s: Seq<u8>) -> Scan {
    or_else(
        line_shape(s, head_echo(), false),
        or_else(
            line_shape(s, head_echo_state(), true),
            or_else(startup_shape(s), line_shape(s, head_join_status(), true)),
        ),
    )
}

/// One error literal, directly followed by the line terminator. The payload
/// is the literal.
pub open spec fn literal_shape(s: Seq<u8>, literal: Seq<u8>) -> Scan {
    match tag_at(s, 0, literal) {
        TagMatch::Mismatch => Scan::NoMatch,
        TagMatch::Incomplete => Scan::Incomplete,
        TagMatch::Matched => match tag_at(s, literal.len() as int, crlf()) {
            TagMatch::Mismatch => Scan::NoMatch,
            TagMatch::Incomplete => Scan::Incomplete,
            TagMatch::Matched => Scan::Matched(
                Frame {
                    start: 0,
                    end: literal.len() as int,
                    consumed: (literal.len() + crlf().len()) as int,
                },
            ),
        },
    }
}

/// The error literals of this modem, in the order in which they are tried.
pub open spec fn vendor_error(s: Seq<u8>) -> Scan {
    or_else(
        literal_shape(s, "ERROR(-1)".spec_bytes()),
        or_else(
            literal_shape(s, "ERROR(-2)".spec_bytes()),
            or_else(
                literal_shape(s, "ERROR(-3)".spec_bytes()),
                or_else(
                    literal_shape(s, "ERROR(-5)".spec_bytes()),
                    literal_shape(s, "ERROR(-7)".spec_bytes()),
                ),
            ),
        ),
    )
}

/// The frame that a matcher of this modem's shapes found, as a digested frame.
pub open spec fn digested(s: Seq<u8>, class: Classification, f: Frame) -> Digested {
    Digested { class, payload: s.subrange(f.start, f.end), consumed: f.consumed }
}

/// What the generic error envelope makes of a buffer that nothing else
/// claimed: the error line if there is one, and otherwise nothing, which is
/// to say that more bytes are awaited.
pub open spec fn error_outcome(outcome: Option<(TransportError, int)>) -> Option<Digested> {
    match outcome {
        Some((kind, n)) => Some(
            Digested {
                class: Classification::SolicitedError(kind),
                payload: Seq::empty(),
                consumed: n,
            },
        ),
        None => None,
    }
}

/// The steps that follow the generic success envelope, in their order: the
/// notification grammar, the success shapes of this modem, its error
/// literals, and the generic error envelope. A step that asks for more bytes
/// ends the search, as does one that finds a frame.
pub open spec fn digest_shapes(s: Seq<u8>) -> Option<Digested> {
    match notification(s) {
        Scan::Matched(f) => Some(digested(s, Classification::Unsolicited, f)),
        Scan::Incomplete => None,
        Scan::NoMatch => match vendor_success(s) {
            Scan::Matched(f) => Some(digested(s, Classification::SolicitedSuccess, f)),
            Scan::Incomplete => None,
            Scan::NoMatch => match vendor_error(s) {
                Scan::Matched(f) => Some(
                    digested(s, Classification::SolicitedError(TransportError::Custom), f),
                ),
                Scan::Incomplete => None,
                Scan::NoMatch => error_outcome(error_line(s)),
            },
        },
    }
}

/// What the digester makes of a buffer: the first frame in it, or `None`
/// where there is no complete frame yet.
///
/// A buffer that begins with the stray acknowledgement yields that
/// acknowledgement, whatever follows. Otherwise the generic success envelope
/// is tried, and then the steps of [`digest_shapes`].
pub open spec fn digest_spec(s: Seq<u8>) -> Option<Digested> {
    if tag_at(s, 0, stray_ack()) is Matched {
        Some(
            Digested {
                class: Classification::SolicitedSuccess,
                payload: Seq::empty(),
                consumed: stray_ack().len() as int,
            },
        )
    } else {
        match success_envelope(s) {
            Some((payload, n)) => Some(
                Digested { class: Classification::SolicitedSuccess, payload, consumed: n },
            ),
            None => digest_shapes(s),
        }
    }
}

/// A frame that a matcher reports lies inside the buffer, and its payload
/// inside the frame.
pub open spec fn frame_in_bounds(f: Frame, len: int) -> bool {
    0 <= f.start <= f.end <= f.consumed <= len && 1 <= f.consumed
}

/// `payload` is a stretch of the first `n` bytes of `s`.
pub open spec fn lies_within(payload: Seq<u8>, s: Seq<u8>, n: int) -> bool {
    exists|a: int, b: int| 0 <= a <= b <= n <= s.len() && payload == #[trigger] s.subrange(a, b)
}

/// The verdict and the count of consumed bytes say what `frame` says.
pub open spec fn verdict_is(r: (Verdict<'_>, usize), frame: Option<Digested>) -> bool {
    match r.0 {
        Verdict::Incomplete => frame is None && r.1 == 0,
        Verdict::Matched { class, payload } => frame == Some(
            Digested { class, payload: payload@, consumed: r.1 as int },
        ),
    }
}

/// What a matcher hands back says what `scan` says of the buffer `s`.
pub open spec fn result_is(
    r: Result<(&[u8], usize), ParseError>,
    s: Seq<u8>,
    scan: Scan,
) -> bool {
    match scan {
        Scan::NoMatch => r == Err::<(&[u8], usize), ParseError>(ParseError::NoMatch),
        Scan::Incomplete => r == Err::<(&[u8], usize), ParseError>(ParseError::Incomplete),
        Scan::Matched(f) => r matches Ok((payload, n)) && payload@ == s.subrange(f.start, f.end)
            && n == f.consumed,
    }
}

fn scan_line(buf: &[u8], head: &[u8], keep_head: bool) -> (r: Span)
    ensures
        r@ == line_shape(buf@, head@, keep_head),
        r@ matches Scan::Matched(f) ==> frame_in_bounds(f, buf@.len() as int),
{
    match match_tag(buf, 0, head) {
        TagMatch::Mismatch => Span::NoMatch,
        TagMatch::Incomplete => Span::Incomplete,
        TagMatch::Matched => {
            let terminator = "\r\n".as_bytes();
            match find_first(buf, terminator, head.len()) {
                None => Span::Incomplete,
                Some(p) => {
                    proof {
                        lemma_crlf();
                    }
                    Span::Matched {
                        start: if keep_head {
                            0
                        } else {
                            head.len()
                        },
                        end: p,
                        consumed: p + terminator.len(),
                    }
                },
            }
        },
    }
}

fn scan_startup(buf: &[u8]) -> (r: Span)
    ensures
        r@ == startup_shape(buf@),
        r@ matches Scan::Matched(f) ==> frame_in_bounds(f, buf@.len() as int),
{
    let head = "+ATZ: ".as_bytes();
    let terminator = "\r\n".as_bytes();
    match match_tag(buf, 0, head) {
        TagMatch::Mismatch => Span::NoMatch,
        TagMatch::Incomplete => Span::Incomplete,
        TagMatch::Matched => match find_non_alphanumeric(buf, head.len()) {
            None => Span::Incomplete,
            Some(q) => {
                match match_tag(buf, q, terminator) {
                    TagMatch::Mismatch => Span::NoMatch,
                    TagMatch::Incomplete => Span::Incomplete,
                    TagMatch::Matched => {
                        match find_first(buf, terminator, q + terminator.len()) {
                            None => Span::Incomplete,
                            Some(p) => {
                                proof {
                                    lemma_crlf();
                                }
                                Span::Matched { start: 0, end: q, consumed: p + terminator.len() }
                            },
                        }
                    },
                }
            },
        },
    }
}

fn scan_literal(buf: &[u8], literal: &[u8]) -> (r: Span)
    ensures
        r@ == literal_shape(buf@, literal@),
        r@ matches Scan::Matched(f) ==> frame_in_bounds(f, buf@.len() as int),
{
    match match_tag(buf, 0, literal) {
        TagMatch::Mismatch => Span::NoMatch,
        TagMatch::Incomplete => Span::Incomplete,
        TagMatch::Matched => {
            let terminator = "\r\n".as_bytes();
            match match_tag(buf, literal.len(), terminator) {
                TagMatch::Mismatch => Span::NoMatch,
                TagMatch::Incomplete => Span::Incomplete,
                TagMatch::Matched => {
                    proof {
                        lemma_crlf();
                    }
                    Span::Matched {
                        start: 0,
                        end: literal.len(),
                        consumed: literal.len() + terminator.len(),
                    }
                },
            }
        },
    }
}

fn span_result<'a>(buf: &'a [u8], span: Span) -> (r: Result<(&'a [u8], usize), ParseError>)
    requires
        span@ matches Scan::Matched(f) ==> frame_in_bounds(f, buf@.len() as int),
    ensures
        result_is(r, buf@, span@),
        r matches Ok((payload, n)) ==> 1 <= n <= buf@.len() && lies_within(
            payload@,
            buf@,
            n as int,
        ),
{
    match span {
        Span::NoMatch => Err(ParseError::NoMatch),
        Span::Incomplete => Err(ParseError::Incomplete),
        Span::Matched { start, end, consumed } => {
            assert(lies_within(buf@.subrange(start as int, end as int), buf@, consumed as int));
            Ok((slice_subrange(buf, start, end), consumed))
        },
    }
}

/// The digester for the MKL62BA.
pub struct MokoDigester {}

impl MokoDigester {
    /// Matches the error literals of this modem at the start of `buf`.
    ///
    /// On a match the result holds the literal and the length of the error
    /// line, terminator included.
    pub fn custom_error(buf: &[u8]) -> (r: Result<(&[u8], usize), ParseError>)
        ensures
            result_is(r, buf@, vendor_error(buf@)),
            r matches Ok((payload, n)) ==> 1 <= n <= buf@.len() && lies_within(
                payload@,
                buf@,
                n as int,
            ),
    {
        let first = scan_literal(buf, "ERROR(-1)".as_bytes());
        if !matches!(first, Span::NoMatch) {
            return span_result(buf, first);
        }
        let second = scan_literal(buf, "ERROR(-2)".as_bytes());
        if !matches!(second, Span::NoMatch) {
            return span_result(buf, second);
        }
        let third = scan_literal(buf, "ERROR(-3)".as_bytes());
        if !matches!(third, Span::NoMatch) {
            return span_result(buf, third);
        }
        let fourth = scan_literal(buf, "ERROR(-5)".as_bytes());
        if !matches!(fourth, Span::NoMatch) {
            return span_result(buf, fourth);
        }
        span_result(buf, scan_literal(buf, "ERROR(-7)".as_bytes()))
    }

    /// Matches the success shapes of this modem at the start of `buf`.
    ///
    /// On a match the result holds the payload and the length of the frame,
    /// which is the sum of the lengths of its head, payload and tail.
    pub fn custom_success(buf: &[u8]) -> (r: Result<(&[u8], usize), ParseError>)
        ensures
            result_is(r, buf@, vendor_success(buf@)),
            r matches Ok((payload, n)) ==> 1 <= n <= buf@.len() && lies_within(
                payload@,
                buf@,
                n as int,
            ),
    {
        let echo = scan_line(buf, "+AT: ".as_bytes(), false);
        if !matches!(echo, Span::NoMatch) {
            return span_result(buf, echo);
        }
        let echo_state = scan_line(buf, "+ATE: ".as_bytes(), true);
        if !matches!(echo_state, Span::NoMatch) {
            return span_result(buf, echo_state);
        }
        let startup = scan_startup(buf);
        if !matches!(startup, Span::NoMatch) {
            return span_result(buf, startup);
        }
        span_result(buf, scan_line(buf, "+JOIN_STD: ".as_bytes(), true))
    }

    /// The verdict on a buffer that only the generic error envelope is left
    /// to judge, given its outcome: the error with an empty payload where it
    /// found an error line, and `Incomplete` with nothing consumed where it
    /// did not.
    pub fn error_verdict<'a>(input: &'a [u8], outcome: Option<(TransportError, usize)>) -> (r: (
        Verdict<'a>,
        usize,
    ))
        ensures
            verdict_is(
                r,
                error_outcome(
                    match outcome {
                        Some((kind, n)) => Some((kind, n as int)),
                        None => None,
                    },
                ),
            ),
    {
        proof {
            assert(input@.subrange(0, 0) =~= Seq::<u8>::empty());
        }
        match outcome {
            Some((kind, n)) => (
                Verdict::Matched {
                    class: Classification::SolicitedError(kind),
                    payload: slice_subrange(input, 0, 0),
                },
                n,
            ),
            None => (Verdict::Incomplete, 0),
        }
    }

    /// Digests the start of `input`.
    ///
    /// The result is the first frame in the buffer with the number of bytes
    /// that it takes up, or `Incomplete` and zero where the buffer holds no
    /// complete frame. A frame takes up at least one byte and never more than
    /// the buffer holds, and its payload lies inside it; what lies behind the
    /// frame is left for the next call, which sees none of the bytes that
    /// this one consumed.
    pub fn digest<'a>(&mut self, input: &'a [u8]) -> (r: (Verdict<'a>, usize))
        ensures
            verdict_is(r, digest_spec(input@)),
            r.1 <= input@.len(),
            r.0 matches Verdict::Matched { payload, .. } ==> r.1 >= 1 && lies_within(
                payload@,
                input@,
                r.1 as int,
            ),
    {
        if matches!(match_tag(input, 0, "OK\r\n".as_bytes()), TagMatch::Matched) {
            let ack = "OK\r\n".as_bytes();
            proof {
                lemma_stray_ack();
                assert(input@.subrange(0, 0) =~= Seq::<u8>::empty());
                assert(lies_within(input@.subrange(0, 0), input@, 4));
            }
            return (
                Verdict::Matched {
                    class: Classification::SolicitedSuccess,
                    payload: slice_subrange(input, 0, 0),
                },
                ack.len(),
            );
        }
        if let Some((payload, n)) = generic_success(input) {
            proof {
                lemma_success_envelope_bounds(input@);
                lemma_success_envelope_payload(input@);
            }
            return (Verdict::Matched { class: Classification::SolicitedSuccess, payload }, n);
        }
        match crate::urc::parse(input) {
            Ok((payload, n)) => {
                return (Verdict::Matched { class: Classification::Unsolicited, payload }, n);
            },
            Err(ParseError::Incomplete) => {
                return (Verdict::Incomplete, 0);
            },
            Err(ParseError::NoMatch) => {},
        }
        match Self::custom_success(input) {
            Ok((payload, n)) => {
                return (Verdict::Matched { class: Classification::SolicitedSuccess, payload }, n);
            },
            Err(ParseError::Incomplete) => {
                return (Verdict::Incomplete, 0);
            },
            Err(ParseError::NoMatch) => {},
        }
        match Self::custom_error(input) {
            Ok((payload, n)) => {
                return (
                    Verdict::Matched {
                        class: Classification::SolicitedError(TransportError::Custom),
                        payload,
                    },
                    n,
                );
            },
            Err(ParseError::Incomplete) => {
                return (Verdict::Incomplete, 0);
            },
            Err(ParseError::NoMatch) => {},
        }
        let r = Self::error_verdict(input, generic_error(input));
        proof {
            assert(input@.subrange(0, 0) =~= Seq::<u8>::empty());
            if r.0 is Matched {
                assert(lies_within(input@.subrange(0, 0), input@, r.1 as int));
            }
        }
        r
    }
}

impl Default for MokoDigester {
    fn default() -> (r: Self) {
        Self {  }
    }
}

/// The bytes of the stray acknowledgement.
pub proof fn lemma_stray_ack()
    ensures
        stray_ack() == seq![0x4Fu8, 0x4B, 0x0D, 0x0A],
{
    reveal_strlit("OK\r\n");
    vstd::string::is_ascii_spec_bytes("OK\r\n");
    assert(stray_ack() =~= seq![0x4Fu8, 0x4B, 0x0D, 0x0A]);
}

/// A frame of the generic success envelope takes up at least one byte and
/// lies inside the buffer.
pub proof fn lemma_success_envelope_bounds(s: Seq<u8>)
    ensures
        success_envelope(s) matches Some((payload, n)) ==> 1 <= n <= s.len(),
{
    lemma_tails();
    if first_occurrence(s, ok_tail(), 0) is Some {
        lemma_first_occurrence_some(s, ok_tail(), 0);
    } else if first_occurrence(s, connect_tail(), 0) is Some {
        lemma_first_occurrence_some(s, connect_tail(), 0);
    }
}

/// The payload of a frame of the generic success envelope lies inside the
/// frame.
pub proof fn lemma_success_envelope_payload(s: Seq<u8>)
    ensures
        success_envelope(s) matches Some((payload, n)) ==> lies_within(payload, s, n),
{
    lemma_tails();
    let at = if first_occurrence(s, ok_tail(), 0) is Some {
        lemma_first_occurrence_some(s, ok_tail(), 0);
        first_occurrence(s, ok_tail(), 0)
    } else if first_occurrence(s, connect_tail(), 0) is Some {
        lemma_first_occurrence_some(s, connect_tail(), 0);
        first_occurrence(s, connect_tail(), 0)
    } else {
        None
    };
    if at is Some {
        let front = s.subrange(0, at->0);
        let (a, b) = lemma_trim_is_subrange(front);
        assert(front.subrange(a, b) =~= s.subrange(a, b));
    }
}

} // verus!
