//! The response envelopes that AT modems have in common. They are recognised
//! by the `atat` crate; this module says what its two parsers hand back, in
//! the terms that the digester's contract uses.
use atat::digest::parser::{error_response, success_response};
use atat::digest::DigestResult;
use atat::InternalError;
use vstd::prelude::*;
use vstd::string::StringSliceAdditionalSpecFns;
use crate::general::responses::TransportError;
use crate::wire::{first_occurrence, trim_ascii};

verus! {

/// What closes a successful response.
pub open spec fn ok_tail() -> Seq<u8> {
    "\r\nOK\r\n".spec_bytes()
}

/// What closes the response to a command that opens a data connection.
pub open spec fn connect_tail() -> Seq<u8> {
    "\r\nCONNECT\r\n".spec_bytes()
}

/// The generic success envelope: everything up to the first `OK` line, or,
/// where there is none, up to the first `CONNECT` line. The result is the
/// payload, which is the text in front of that line without the ASCII
/// whitespace around it, and the number of bytes up to the end of that line.
pub open spec fn success_envelope(s: Seq<u8>) -> Option<(Seq<u8>, int)> {
    match first_occurrence(s, ok_tail(), 0) {
        Some(p) => Some((trim_ascii(s.subrange(0, p)), p + ok_tail().len())),
        None => match first_occurrence(s, connect_tail(), 0) {
            Some(p) => Some((trim_ascii(s.subrange(0, p)), p + connect_tail().len())),
            None => None,
        },
    }
}

/// The generic error envelope, as `atat::digest::parser::error_response`
/// recognises it: the kind of error and the number of bytes that the error
/// line takes up, or `None` where the buffer holds no such line.
pub uninterp spec fn error_envelope(s: Seq<u8>) -> Option<(TransportError, int)>;

/// The length of the shortest line that the generic error envelope knows,
/// which is `NA` between two line terminators.
pub const SHORTEST_ERROR_LINE: usize = 6;

/// The error line at the start of `s`, if the generic error envelope finds
/// one: its kind and the number of bytes that it takes up.
///
/// An error line is no shorter than the shortest that the envelope knows and
/// no longer than the buffer. Every outcome of the envelope is of that kind,
/// so this is the outcome of the envelope.
pub open spec fn error_line(s: Seq<u8>) -> Option<(TransportError, int)> {
    match error_envelope(s) {
        Some((kind, n)) => if SHORTEST_ERROR_LINE <= n <= s.len() {
            Some((kind, n))
        } else {
            None
        },
        None => None,
    }
}

/// The bytes of the two closing lines.
pub proof fn lemma_tails()
    ensures
        ok_tail() == seq![0x0Du8, 0x0A, 0x4F, 0x4B, 0x0D, 0x0A],
        connect_tail() == seq![
            0x0Du8,
            0x0A,
            0x43,
            0x4F,
            0x4E,
            0x4E,
            0x45,
            0x43,
            0x54,
            0x0D,
            0x0A,
        ],
{
    reveal_strlit("\r\nOK\r\n");
    reveal_strlit("\r\nCONNECT\r\n");
    vstd::string::is_ascii_spec_bytes("\r\nOK\r\n");
    vstd::string::is_ascii_spec_bytes("\r\nCONNECT\r\n");
    assert(ok_tail() =~= seq![0x0Du8, 0x0A, 0x4F, 0x4B, 0x0D, 0x0A]);
    assert(connect_tail() =~= seq![
        0x0Du8,
        0x0A,
        0x43,
        0x4F,
        0x4E,
        0x4E,
        0x45,
        0x43,
        0x54,
        0x0D,
        0x0A,
    ]);
}

/// Calls `atat::digest::parser::success_response`.
///
/// That parser looks for the first `\r\nOK\r\n` in the buffer and, only if
/// there is none, for the first `\r\nCONNECT\r\n`. It fails if it finds neither;
/// it never asks for more bytes. On success it yields the bytes in front of
/// what it found, trimmed by `<[u8]>::trim_ascii`, and the length up to the
/// end of what it found. The contract claims exactly that.
#[verifier::external_body]
pub(crate) fn generic_success<'a>(buf: &'a [u8]) -> (r: Option<(&'a [u8], usize)>)
    ensures
        match r {
            Some((payload, n)) => success_envelope(buf@) == Some((payload@, n as int)),
            None => success_envelope(buf@) is None,
        },
{
    match success_response(buf) {
        Ok((_, (DigestResult::Response(Ok(payload)), n))) => Some((payload, n)),
        _ => None,
    }
}

/// Calls `atat::digest::parser::error_response`.
///
/// That parser knows the `+CME ERROR`, `+CMS ERROR` and `MODEM ERROR` lines
/// with a number, the bare `ERROR` and `COMMAND NOT SUPPORT` lines, the four
/// connection errors and `NA`, each between two line terminators, and it
/// reports four kinds of error, which are told apart here. The contract does
/// not spell the lines out. It gives the outcome a name, and claims that the
/// same bytes always have the same outcome, and that the length reported for
/// an error line is at least six, which is the length of the shortest of
/// these lines, and at most the length of the buffer, being the sum of the
/// lengths of the pieces that the parser matched from the start of the
/// buffer.
#[verifier::external_body]
pub(crate) fn generic_error(buf: &[u8]) -> (r: Option<(TransportError, usize)>)
    ensures
        match r {
            Some((kind, n)) => error_envelope(buf@) == Some((kind, n as int))
                && SHORTEST_ERROR_LINE <= n <= buf@.len(),
            None => error_envelope(buf@) is None,
        },
{
    match error_response(buf) {
        Ok((_, (DigestResult::Response(Err(e)), n))) => match e {
            InternalError::Error => Some((TransportError::Error, n)),
            InternalError::CmeError(_) => Some((TransportError::CmeError, n)),
            InternalError::CmsError(_) => Some((TransportError::CmsError, n)),
            InternalError::ConnectionError(_) => Some((TransportError::ConnectionError, n)),
            _ => None,
        },
        _ => None,
    }
}

} // verus!
