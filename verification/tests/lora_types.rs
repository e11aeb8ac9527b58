use moko_mkl62ba_at_commands::lora::types::{
    LoraClass, LoraJoinMode, LoraJoiningStatus, LoraRegion,
};

#[test]
fn region_tokens_round_trip() {
    let all = [
        (LoraRegion::Eu868, "EU868"),
        (LoraRegion::In865, "IN865"),
        (LoraRegion::Ru864, "RU864"),
        (LoraRegion::Us915, "US915"),
        (LoraRegion::Au915, "AU915"),
        (LoraRegion::As923, "AS923"),
        (LoraRegion::Unknown, ""),
    ];
    for (region, token) in all {
        assert_eq!(region.token(), token.as_bytes());
        assert_eq!(LoraRegion::from_token(token.as_bytes()), region);
        assert_eq!(LoraRegion::from(token.as_bytes().to_vec()), region);
    }
    assert_eq!(LoraRegion::from_token(b"eu868"), LoraRegion::Unknown);
    assert_eq!(LoraRegion::from_token(b"EU8688"), LoraRegion::Unknown);
}

#[test]
fn class_tokens_round_trip() {
    let all = [
        (LoraClass::ClassA, "A"),
        (LoraClass::ClassB, "B"),
        (LoraClass::ClassC, "C"),
        (LoraClass::Unknown, ""),
    ];
    for (class, token) in all {
        assert_eq!(class.token(), token.as_bytes());
        assert_eq!(LoraClass::from_token(token.as_bytes()), class);
        assert_eq!(LoraClass::from(token.as_bytes().to_vec()), class);
    }
    assert_eq!(LoraClass::from_token(b"D"), LoraClass::Unknown);
}

#[test]
fn join_mode_tokens_round_trip() {
    let all =
        [(LoraJoinMode::Otaa, "OTAA"), (LoraJoinMode::Abp, "ABP"), (LoraJoinMode::Unknown, "")];
    for (mode, token) in all {
        assert_eq!(mode.token(), token.as_bytes());
        assert_eq!(LoraJoinMode::from_token(token.as_bytes()), mode);
    }
    assert_eq!(LoraJoinMode::from_token(b"otaa"), LoraJoinMode::Unknown);
}

#[test]
fn joining_status_tokens() {
    assert_eq!(LoraJoiningStatus::from_token(b"JOINING"), LoraJoiningStatus::Joining);
    assert_eq!(LoraJoiningStatus::from_token(b"JOINED"), LoraJoiningStatus::Joined);
    assert_eq!(LoraJoiningStatus::from_token(b"JOIN FAILED"), LoraJoiningStatus::JoinFailed);
    assert_eq!(LoraJoiningStatus::from_token(b"ERROR(-3)"), LoraJoiningStatus::BusyError);
    assert_eq!(LoraJoiningStatus::from_token(b"ERROR(-2)"), LoraJoiningStatus::InAbpModeError);
    assert_eq!(LoraJoiningStatus::from_token(b""), LoraJoiningStatus::Unknown);
    assert_eq!(
        LoraJoiningStatus::from(b"JOINED".to_vec()),
        LoraJoiningStatus::Joined
    );
}
