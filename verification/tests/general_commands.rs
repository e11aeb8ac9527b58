use moko_mkl62ba_at_commands::general::commands::{
    AteGet, AteSet, Reset, SleepGet, SleepSet, VerifyComIsWorking,
};

#[test]
fn verify_com_is_working_serializes_correctly() {
    let k = VerifyComIsWorking {};
    let k = k.as_bytes();
    assert_eq!(k, b"AT\r\n");
}

#[test]
fn ate_get() {
    let k = AteGet {}.as_bytes();
    assert_eq!(k, b"AT+ATE=?\r\n");
}

#[test]
fn ate_set() {
    let k = AteSet::on().as_bytes();
    assert_eq!(k, b"AT+ATE=ON\r\n");
    let k = AteSet::off().as_bytes();
    assert_eq!(k, b"AT+ATE=OFF\r\n");
}

#[test]
fn sleep_set() {
    let k = SleepSet::on().as_bytes();
    assert_eq!(k, b"AT+SLEEP=ON\r\n");
    let k = SleepSet::off().as_bytes();
    assert_eq!(k, b"AT+SLEEP=OFF\r\n");
}

#[test]
fn sleep_get() {
    let k = SleepGet {}.as_bytes();
    assert_eq!(k, b"AT+SLEEP=?\r\n");
}

#[test]
fn reset() {
    let k = Reset {}.as_bytes();
    assert_eq!(k, b"AT+RESET\r\n");
}
