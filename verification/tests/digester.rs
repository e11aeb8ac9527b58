use moko_mkl62ba_at_commands::digester::{
    Classification, MokoDigester, ParseError, Verdict,
};
use moko_mkl62ba_at_commands::general::responses::{
    error_kind_of, Error, ErrorResponse, TransportError,
};

fn digest(input: &[u8]) -> (Verdict<'_>, usize) {
    MokoDigester::default().digest(input)
}

fn success(payload: &[u8]) -> Verdict<'_> {
    Verdict::Matched { class: Classification::SolicitedSuccess, payload }
}

fn error(kind: TransportError, payload: &[u8]) -> Verdict<'_> {
    Verdict::Matched { class: Classification::SolicitedError(kind), payload }
}

#[test]
fn stray_acknowledgement() {
    assert_eq!(digest(b"OK\r\n"), (success(b""), 4));
}

#[test]
fn stray_acknowledgement_takes_precedence() {
    assert_eq!(digest(b"OK\r\nOK\r\n"), (success(b""), 4));
    assert_eq!(digest(b"OK\r\n+AT: x\r\n"), (success(b""), 4));
    assert_eq!(digest(b"OK\r\n\r\nOK\r\n"), (success(b""), 4));
}

#[test]
fn generic_success_envelope() {
    assert_eq!(digest(b"\r\nOK\r\n"), (success(b""), 6));
    assert_eq!(digest(b"EU868\r\nOK\r\n"), (success(b"EU868"), 11));
    assert_eq!(digest(b"  abc \r\nOK\r\nrest"), (success(b"abc"), 12));
    assert_eq!(
        digest(b"+DEVEUI: 30:32:35:38:6B:37:5F:03\r\nOK\r\n"),
        (success(b"+DEVEUI: 30:32:35:38:6B:37:5F:03"), 38)
    );
    assert_eq!(digest(b"data\r\nCONNECT\r\n"), (success(b"data"), 15));
    assert_eq!(digest(b"a\r\nCONNECT\r\nb\r\nOK\r\n"), (success(b"a\r\nCONNECT\r\nb"), 19));
}

#[test]
fn generic_success_envelope_comes_before_the_vendor_shapes() {
    assert_eq!(digest(b"+AT: x\r\nOK\r\n"), (success(b"+AT: x"), 12));
    assert_eq!(digest(b"+AT: x\r\n"), (success(b"x"), 8));
}

#[test]
fn labelled_echo_line() {
    assert_eq!(digest(b"+AT: OK\r\n"), (success(b"OK"), 9));
    assert_eq!(digest(b"+AT: \r\n"), (success(b""), 7));
    assert_eq!(digest(b"+AT: one\r\n+AT: two\r\n"), (success(b"one"), 10));
}

#[test]
fn echo_state_line() {
    assert_eq!(digest(b"+ATE: ON\r\n"), (success(b"+ATE: ON"), 10));
    assert_eq!(digest(b"+ATE: OFF\r\nOK\r"), (success(b"+ATE: OFF"), 11));
}

#[test]
fn startup_preamble() {
    assert_eq!(
        digest(b"+ATZ: RESET\r\nMKL62BA V1.0\r\n"),
        (success(b"+ATZ: RESET"), 27)
    );
    assert_eq!(digest(b"+ATZ: \r\n\r\n"), (success(b"+ATZ: "), 10));
    assert_eq!(digest(b"+ATZ: RESET\r\nMKL62BA V1.0\r"), (Verdict::Incomplete, 0));
    assert_eq!(digest(b"+ATZ: RESET"), (Verdict::Incomplete, 0));
    assert_eq!(digest(b"+ATZ: RESET\r"), (Verdict::Incomplete, 0));
    assert_eq!(digest(b"+ATZ: RE SET\r\nx\r\n"), (Verdict::Incomplete, 0));
}

#[test]
fn join_status_line() {
    assert_eq!(digest(b"+JOIN_STD: JOINED\r\n"), (success(b"+JOIN_STD: JOINED"), 19));
    assert_eq!(
        digest(b"+JOIN_STD: JOIN FAILED\r\nmore"),
        (success(b"+JOIN_STD: JOIN FAILED"), 24)
    );
}

#[test]
fn vendor_errors() {
    for literal in ["ERROR(-1)", "ERROR(-2)", "ERROR(-3)", "ERROR(-5)", "ERROR(-7)"] {
        let line = format!("{literal}\r\n");
        assert_eq!(
            digest(line.as_bytes()),
            (error(TransportError::Custom, literal.as_bytes()), 11)
        );
    }
    assert_eq!(digest(b"ERROR(-4)\r\n"), (Verdict::Incomplete, 0));
    assert_eq!(digest(b"ERROR(-1)x\r\n"), (Verdict::Incomplete, 0));
}

#[test]
fn vendor_error_payload_maps_to_its_kind() {
    let kinds = [
        ("ERROR(-1)", Error::AtCommandError),
        ("ERROR(-2)", Error::AtParameterError),
        ("ERROR(-3)", Error::Busy),
        ("ERROR(-5)", Error::CouldNotJoinTheNetwork),
        ("ERROR(-7)", Error::Timeout),
    ];
    for (literal, kind) in kinds {
        let line = format!("{literal}\r\nrest");
        match digest(line.as_bytes()) {
            (Verdict::Matched { payload, .. }, 11) => {
                assert_eq!(ErrorResponse::decode(payload).unwrap().kind(), kind);
            }
            other => panic!("{other:?}"),
        }
    }
}

#[test]
fn generic_error_envelope() {
    assert_eq!(digest(b"\r\nERROR\r\n"), (error(TransportError::Error, b""), 9));
    assert_eq!(
        digest(b"\r\nCOMMAND NOT SUPPORT\r\n"),
        (error(TransportError::Error, b""), 23)
    );
    assert_eq!(digest(b"\r\n+CME ERROR: 10\r\n"), (error(TransportError::CmeError, b""), 18));
    assert_eq!(digest(b"\r\n+CMS ERROR: 332\r\n"), (error(TransportError::CmsError, b""), 19));
    assert_eq!(
        digest(b"\r\nNO CARRIER\r\nrest"),
        (error(TransportError::ConnectionError, b""), 14)
    );
    assert_eq!(digest(b"\r\nBUSY\r\n"), (error(TransportError::ConnectionError, b""), 8));
    assert_eq!(digest(b"\r\nNA\r\n"), (error(TransportError::CmeError, b""), 6));
    assert_eq!(digest(b"\r\nUNKNOWN COMMAND\r\n"), (Verdict::Incomplete, 0));
}

#[test]
fn error_verdict() {
    assert_eq!(
        MokoDigester::error_verdict(b"abc", Some((TransportError::Error, 3))),
        (error(TransportError::Error, b""), 3)
    );
    assert_eq!(MokoDigester::error_verdict(b"abc", None), (Verdict::Incomplete, 0));
}

#[test]
fn incomplete() {
    for input in [
        &b""[..],
        b"O",
        b"OK",
        b"OK\r",
        b"+",
        b"+AT",
        b"+AT: abc",
        b"+AT: abc\r",
        b"+JOIN_STD: JOIN",
        b"ERROR(-",
        b"ERROR(-1)",
        b"ERROR(-1)\r",
        b"garbage",
        b"\r\nOK\r",
    ] {
        assert_eq!(digest(input), (Verdict::Incomplete, 0), "{input:?}");
    }
}

#[test]
fn fragments_of_a_frame_are_incomplete() {
    let frames: [&[u8]; 7] = [
        b"+AT: OTAA\r\n",
        b"+ATE: ON\r\n",
        b"+ATZ: RESET\r\nMKL62BA\r\n",
        b"+JOIN_STD: JOINED\r\n",
        b"ERROR(-1)\r\n",
        b"ERROR(-7)\r\n",
        b"OK\r\n",
    ];
    for frame in frames {
        let whole = digest(frame);
        assert_eq!(whole.1, frame.len());
        for k in 0..frame.len() {
            assert_eq!(digest(&frame[..k]), (Verdict::Incomplete, 0), "{:?}", &frame[..k]);
        }
        let mut grown = Vec::new();
        for (i, byte) in frame.iter().enumerate() {
            grown.push(*byte);
            if i + 1 < frame.len() {
                assert_eq!(digest(&grown), (Verdict::Incomplete, 0));
            }
        }
        assert_eq!(digest(&grown), whole);
    }
}

#[test]
fn leftover_is_digested_on_its_own() {
    let mut buffer: &[u8] = b"ERROR(-2)\r\n+AT: x\r\n+JOIN_STD: JOINING\r\nOK\r+AT";
    let mut seen = Vec::new();
    loop {
        let (verdict, consumed) = digest(buffer);
        assert!(consumed <= buffer.len());
        match verdict {
            Verdict::Incomplete => {
                assert_eq!(consumed, 0);
                break;
            }
            Verdict::Matched { class, payload } => {
                assert!(consumed >= 1);
                assert!(payload.len() <= consumed);
                seen.push((class, payload.to_vec(), consumed));
                buffer = &buffer[consumed..];
            }
        }
    }
    assert_eq!(
        seen,
        vec![
            (Classification::SolicitedError(TransportError::Custom), b"ERROR(-2)".to_vec(), 11),
            (Classification::SolicitedSuccess, b"x".to_vec(), 8),
            (Classification::SolicitedSuccess, b"+JOIN_STD: JOINING".to_vec(), 20),
        ]
    );
    assert_eq!(buffer, b"OK\r+AT");
}

#[test]
fn generic_success_envelope_spans_what_stands_before_its_closing_line() {
    assert_eq!(
        digest(b"ERROR(-2)\r\n+AT: x\r\nOK\r\n"),
        (success(b"ERROR(-2)\r\n+AT: x"), 23)
    );
}

#[test]
fn custom_success() {
    assert_eq!(MokoDigester::custom_success(b"+AT: abc\r\nrest"), Ok((&b"abc"[..], 10)));
    assert_eq!(MokoDigester::custom_success(b"+ATE: ON\r\n"), Ok((&b"+ATE: ON"[..], 10)));
    assert_eq!(
        MokoDigester::custom_success(b"+ATZ: a1\r\nsecond\r\n"),
        Ok((&b"+ATZ: a1"[..], 18))
    );
    assert_eq!(
        MokoDigester::custom_success(b"+JOIN_STD: JOINED\r\n"),
        Ok((&b"+JOIN_STD: JOINED"[..], 19))
    );
    assert_eq!(MokoDigester::custom_success(b""), Err(ParseError::Incomplete));
    assert_eq!(MokoDigester::custom_success(b"+AT"), Err(ParseError::Incomplete));
    assert_eq!(MokoDigester::custom_success(b"+ATE: ON"), Err(ParseError::Incomplete));
    assert_eq!(MokoDigester::custom_success(b"+J"), Err(ParseError::Incomplete));
    assert_eq!(MokoDigester::custom_success(b"+ATZ: a1\nx"), Err(ParseError::NoMatch));
    assert_eq!(MokoDigester::custom_success(b"+X"), Err(ParseError::NoMatch));
    assert_eq!(MokoDigester::custom_success(b"OK\r\n"), Err(ParseError::NoMatch));
}

#[test]
fn custom_error() {
    assert_eq!(MokoDigester::custom_error(b"ERROR(-1)\r\n"), Ok((&b"ERROR(-1)"[..], 11)));
    assert_eq!(MokoDigester::custom_error(b"ERROR(-5)\r\nrest"), Ok((&b"ERROR(-5)"[..], 11)));
    assert_eq!(MokoDigester::custom_error(b""), Err(ParseError::Incomplete));
    assert_eq!(MokoDigester::custom_error(b"ERR"), Err(ParseError::Incomplete));
    assert_eq!(MokoDigester::custom_error(b"ERROR(-2"), Err(ParseError::Incomplete));
    assert_eq!(MokoDigester::custom_error(b"ERROR(-3)\r"), Err(ParseError::Incomplete));
    assert_eq!(MokoDigester::custom_error(b"ERROR(-4)\r\n"), Err(ParseError::NoMatch));
    assert_eq!(MokoDigester::custom_error(b"ERROR(-1)\n"), Err(ParseError::NoMatch));
    assert_eq!(MokoDigester::custom_error(b"error(-1)\r\n"), Err(ParseError::NoMatch));
}

#[test]
fn error_kind_of_a_frame() {
    let custom = Classification::SolicitedError(TransportError::Custom);
    assert_eq!(custom.error_kind(b"ERROR(-1)"), Some(Error::AtCommandError));
    assert_eq!(custom.error_kind(b"ERROR(-2)"), Some(Error::AtParameterError));
    assert_eq!(custom.error_kind(b"ERROR(-3)"), Some(Error::Busy));
    assert_eq!(custom.error_kind(b"ERROR(-5)"), Some(Error::CouldNotJoinTheNetwork));
    assert_eq!(custom.error_kind(b"ERROR(-7)"), Some(Error::Timeout));
    assert_eq!(custom.error_kind(b"ERROR(-9)"), Some(Error::Unknown));
    assert_eq!(custom.error_kind(b""), Some(Error::Unknown));
    assert_eq!(
        Classification::SolicitedError(TransportError::Error).error_kind(b"ERROR(-1)"),
        Some(Error::AtParameterError)
    );
    assert_eq!(
        Classification::SolicitedError(TransportError::CmeError).error_kind(b""),
        Some(Error::Unknown)
    );
    assert_eq!(
        Classification::SolicitedError(TransportError::ConnectionError).error_kind(b""),
        Some(Error::CouldNotJoinTheNetwork)
    );
    assert_eq!(Classification::SolicitedSuccess.error_kind(b"ERROR(-1)"), None);
    assert_eq!(Classification::Unsolicited.error_kind(b"ERROR(-1)"), None);
    assert_eq!(error_kind_of(b"ERROR(-3)"), Error::Busy);
    for literal in ["ERROR(-1)", "ERROR(-2)", "ERROR(-3)", "ERROR(-5)", "ERROR(-7)"] {
        let line = format!("{literal}\r\n");
        match digest(line.as_bytes()) {
            (Verdict::Matched { class, payload }, _) => {
                let kind = class.error_kind(payload).unwrap();
                assert_ne!(kind, Error::Unknown);
            }
            other => panic!("{other:?}"),
        }
    }
}
