use moko_mkl62ba_at_commands::digester::ParseError;
use moko_mkl62ba_at_commands::urc::{parse, URCMessages};
use moko_mkl62ba_at_commands::NoResponse;

#[test]
fn notification_grammar_matches_nothing() {
    assert_eq!(parse(b""), Err(ParseError::NoMatch));
    assert_eq!(parse(b"+EVT: 1\r\n"), Err(ParseError::NoMatch));
    assert_eq!(URCMessages::<1044>::parse(b"+AT: x\r\n"), Err(ParseError::NoMatch));
}

#[test]
fn every_notification_is_unknown() {
    assert_eq!(URCMessages::<1044>::decode(b""), Some(URCMessages::Unknown));
    assert_eq!(URCMessages::<16>::decode(b"+EVT: 1"), Some(URCMessages::Unknown));
}

#[test]
fn no_response() {
    assert_eq!(NoResponse, NoResponse.clone());
}
