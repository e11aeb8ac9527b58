use moko_mkl62ba_at_commands::codec::FieldError;
use moko_mkl62ba_at_commands::general::responses::{
    AppEui, Error, ErrorResponse, OkResponse, OnOff, TransportError,
};
use moko_mkl62ba_at_commands::payload::DecodeError;

#[test]
fn verify_ok() {
    let v = OkResponse { ok: "OK".into() };
    assert!(v.is_ok())
}

#[test]
fn verify_on_off() {
    let k = OnOff { on_off: "ON".into() };
    assert!(k.is_on());
    let k = OnOff { on_off: "OFF".into() };
    assert!(k.is_off());
}

#[test]
fn on_off_tells_the_two_apart() {
    let k = OnOff { on_off: "ON".into() };
    assert!(!k.is_off());
    let k = OnOff { on_off: "OFF".into() };
    assert!(!k.is_on());
    let k = OnOff { on_off: "on".into() };
    assert!(!k.is_on() && !k.is_off());
    assert!(!OkResponse { ok: "KO".into() }.is_ok());
}

#[test]
fn decode_tokens() {
    assert_eq!(OkResponse::decode(b"OK"), Ok(OkResponse { ok: "OK".into() }));
    assert_eq!(OnOff::decode(b"+ATE: ON"), Ok(OnOff { on_off: "ON".into() }));
    assert_eq!(OnOff::decode(b"  OFF \r\n"), Ok(OnOff { on_off: "OFF".into() }));
    assert_eq!(
        OnOff::decode(b""),
        Err(DecodeError::Field { index: 0, fault: FieldError::Length })
    );
    assert_eq!(
        OnOff::decode(b"TOOLONG"),
        Err(DecodeError::Field { index: 0, fault: FieldError::Length })
    );
    assert_eq!(
        OkResponse::decode(b"+AT:   "),
        Err(DecodeError::Field { index: 0, fault: FieldError::Length })
    );
}

#[test]
fn error_literals_map_to_their_kinds() {
    let kind = |text: &str| ErrorResponse { error: text.into() }.kind();
    assert_eq!(kind("ERROR(-1)"), Error::AtCommandError);
    assert_eq!(kind("ERROR(-2)"), Error::AtParameterError);
    assert_eq!(kind("ERROR(-3)"), Error::Busy);
    assert_eq!(kind("ERROR(-5)"), Error::CouldNotJoinTheNetwork);
    assert_eq!(kind("ERROR(-7)"), Error::Timeout);
    assert_eq!(kind("ERROR(-4)"), Error::Unknown);
    assert_eq!(kind("ERROR(-6)"), Error::Unknown);
    assert_eq!(kind("ERROR (-1)"), Error::Unknown);
    assert_eq!(kind(""), Error::Unknown);
    let e: Error = ErrorResponse { error: "ERROR(-3)".into() }.into();
    assert_eq!(e, Error::Busy);
}

#[test]
fn error_literals_map_to_transport_errors() {
    let kind = |text: &str| ErrorResponse { error: text.into() }.transport_error();
    assert_eq!(kind("ERROR(-1)"), TransportError::Error);
    assert_eq!(kind("ERROR(-2)"), TransportError::Parse);
    assert_eq!(kind("ERROR(-3)"), TransportError::Overflow);
    assert_eq!(kind("ERROR(-5)"), TransportError::Error);
    assert_eq!(kind("ERROR(-7)"), TransportError::Timeout);
    assert_eq!(kind("whatever"), TransportError::Error);
    let e: TransportError = ErrorResponse { error: "ERROR(-7)".into() }.into();
    assert_eq!(e, TransportError::Timeout);
}

#[test]
fn transport_errors_map_to_error_kinds() {
    assert_eq!(Error::from(TransportError::Read), Error::AtCommandError);
    assert_eq!(Error::from(TransportError::Write), Error::AtCommandError);
    assert_eq!(Error::from(TransportError::Timeout), Error::Timeout);
    assert_eq!(Error::from(TransportError::InvalidResponse), Error::AtCommandError);
    assert_eq!(Error::from(TransportError::Aborted), Error::AtCommandError);
    assert_eq!(Error::from(TransportError::Overflow), Error::Busy);
    assert_eq!(Error::from(TransportError::Parse), Error::AtParameterError);
    assert_eq!(Error::from(TransportError::Error), Error::AtParameterError);
    assert_eq!(Error::from(TransportError::CmeError), Error::Unknown);
    assert_eq!(Error::from(TransportError::CmsError), Error::Unknown);
    assert_eq!(Error::from(TransportError::ConnectionError), Error::CouldNotJoinTheNetwork);
    assert_eq!(Error::from(TransportError::Custom), Error::Unknown);
}

#[test]
fn error_names() {
    assert_eq!(Error::AtCommandError.name(), "AtCommandError");
    assert_eq!(Error::AtParameterError.name(), "AtParameterError");
    assert_eq!(Error::Busy.name(), "Busy");
    assert_eq!(Error::CouldNotJoinTheNetwork.name(), "CouldNotJoinTheNetwork");
    assert_eq!(Error::Timeout.name(), "Timeout");
    assert_eq!(Error::Unknown.name(), "Unknown");
}

#[test]
fn decode_app_eui() {
    assert_eq!(
        AppEui::decode(b"30:32:35:38:6B:37:5F:03"),
        Ok(AppEui { app_eui: 0x303235386B375F03 })
    );
    assert_eq!(
        AppEui::decode(b"30:32:35:38:6b:37:5F:03"),
        Err(DecodeError::Field { index: 0, fault: FieldError::Digit })
    );
}
