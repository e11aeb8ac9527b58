use moko_mkl62ba_at_commands::lora::commands::{
    AppEuiGet, AppEuiSet, AppKeyGet, AppKeySet, DevEuiGet, DevEuiSet, DownlinkFrameCountGet,
    JoinModeGet, JoinModeSet, LoraAdrSet, LoraAutoJoinGet, LoraAutoJoinSet, LoraClassGet,
    LoraClassSet, LoraDrSet, LoraJoinOtaa, LoraJoinOtaaStatus, LoraMaxTxLengthGet,
    LoraReceiveBytes, LoraRegionGet, LoraRegionSet, SendBytes, SendBytesUnprocessed,
    UplinkConfirmGet, UplinkConfirmSet, UplinkFrameCountGet,
};
use moko_mkl62ba_at_commands::lora::types::{LoraClass, LoraJoinMode, LoraRegion};

#[test]
fn join_mode_get() {
    let k = JoinModeGet {}.as_bytes();
    assert_eq!(k, b"AT+JOIN_MODE=?\r\n");
}

#[test]
fn join_mode_set() {
    let k = JoinModeSet::otaa().as_bytes();
    assert_eq!(k, b"AT+JOIN_MODE=OTAA\r\n");
    let k = JoinModeSet::abp().as_bytes();
    assert_eq!(k, b"AT+JOIN_MODE=ABP\r\n");
}

#[test]
fn join_mode_set_for_mode() {
    assert_eq!(
        JoinModeSet::for_mode(LoraJoinMode::Otaa).unwrap().as_bytes(),
        b"AT+JOIN_MODE=OTAA\r\n"
    );
    assert_eq!(
        JoinModeSet::for_mode(LoraJoinMode::Abp).unwrap().as_bytes(),
        b"AT+JOIN_MODE=ABP\r\n"
    );
    assert!(JoinModeSet::for_mode(LoraJoinMode::Unknown).is_none());
}

#[test]
fn dev_eui_get() {
    let k = DevEuiGet {}.as_bytes();
    assert_eq!(k, b"AT+DEVEUI=?\r\n");
}

#[test]
fn dev_eui_set() {
    let k = DevEuiSet::dev_eui(0x303235386B375F03).as_bytes();
    assert_eq!(k, b"AT+DEVEUI=30:32:35:38:6B:37:5F:03\r\n");
}

#[test]
fn dev_eui_set_keeps_leading_zeros() {
    let k = DevEuiSet::dev_eui(0x1).as_bytes();
    assert_eq!(k, b"AT+DEVEUI=00:00:00:00:00:00:00:01\r\n");
    let k = DevEuiSet::dev_eui(0).as_bytes();
    assert_eq!(k, b"AT+DEVEUI=00:00:00:00:00:00:00:00\r\n");
    let k = DevEuiSet::dev_eui(u64::MAX).as_bytes();
    assert_eq!(k, b"AT+DEVEUI=FF:FF:FF:FF:FF:FF:FF:FF\r\n");
}

#[test]
fn app_eui_get() {
    let k = AppEuiGet {}.as_bytes();
    assert_eq!(k, b"AT+APPEUI=?\r\n");
}

#[test]
fn app_eui_set() {
    let k = AppEuiSet::app_eui(0x303235386B375F03).as_bytes();
    assert_eq!(k, b"AT+APPEUI=30:32:35:38:6B:37:5F:03\r\n");
}

#[test]
fn app_key_get() {
    let k = AppKeyGet {}.as_bytes();
    assert_eq!(k, b"AT+APPKEY=?\r\n");
}

#[test]
fn app_key_set() {
    let k = AppKeySet::app_key(0x303235386B375F03_303235386B375F03).as_bytes();
    assert_eq!(
        k,
        b"AT+APPKEY=30:32:35:38:6B:37:5F:03:30:32:35:38:6B:37:5F:03\r\n"
    );
}

#[test]
fn lora_region_get() {
    let k = LoraRegionGet {}.as_bytes();
    assert_eq!(k, b"AT+REGION=?\r\n");
}

#[test]
fn lora_region_set() {
    let k = LoraRegion::Eu868.set_cmd().as_bytes();
    assert_eq!(k, b"AT+REGION=EU868\r\n");
}

#[test]
fn lora_region_set_every_region() {
    assert_eq!(LoraRegionSet::region(LoraRegion::In865).as_bytes(), b"AT+REGION=IN865\r\n");
    assert_eq!(LoraRegionSet::region(LoraRegion::Ru864).as_bytes(), b"AT+REGION=RU864\r\n");
    assert_eq!(LoraRegionSet::region(LoraRegion::Us915).as_bytes(), b"AT+REGION=US915\r\n");
    assert_eq!(LoraRegionSet::region(LoraRegion::Au915).as_bytes(), b"AT+REGION=AU915\r\n");
    assert_eq!(LoraRegionSet::region(LoraRegion::As923).as_bytes(), b"AT+REGION=AS923\r\n");
    assert_eq!(LoraRegionSet::region(LoraRegion::Unknown).as_bytes(), b"AT+REGION=\r\n");
}

#[test]
fn lora_class_get() {
    let k = LoraClassGet {}.as_bytes();
    assert_eq!(k, b"AT+CLASS=?\r\n");
}

#[test]
fn lora_class_set() {
    let k = LoraClass::ClassC.set_cmd().as_bytes();
    assert_eq!(k, b"AT+CLASS=C\r\n");
}

#[test]
fn lora_class_set_every_class() {
    assert_eq!(LoraClassSet::class(LoraClass::ClassA).as_bytes(), b"AT+CLASS=A\r\n");
    assert_eq!(LoraClassSet::class(LoraClass::ClassB).as_bytes(), b"AT+CLASS=B\r\n");
}

#[test]
fn lora_join_otaa() {
    let k = LoraJoinOtaa {}.as_bytes();
    assert_eq!(k, b"AT+JOINING\r\n")
}

#[test]
fn lora_join_otaa_status() {
    let k = LoraJoinOtaaStatus {}.as_bytes();
    assert_eq!(k, b"AT+JOIN_STD=?\r\n")
}

#[test]
fn lora_auto_join_get() {
    let k = LoraAutoJoinGet {}.as_bytes();
    assert_eq!(k, b"AT+AUTO_JOIN=?\r\n");
}

#[test]
fn lora_auto_join_set() {
    let k = LoraAutoJoinSet::on().as_bytes();
    assert_eq!(k, b"AT+AUTO_JOIN=ON\r\n");
    let k = LoraAutoJoinSet::off().as_bytes();
    assert_eq!(k, b"AT+AUTO_JOIN=OFF\r\n");
}

#[test]
fn lora_adr_set() {
    assert_eq!(LoraAdrSet::on().as_bytes(), b"AT+ADR=ON\r\n");
    assert_eq!(LoraAdrSet::off().as_bytes(), b"AT+ADR=OFF\r\n");
}

#[test]
fn lora_dr_set() {
    assert_eq!(LoraDrSet { data_rate: 0 }.as_bytes(), b"AT+DR=0\r\n");
    assert_eq!(LoraDrSet { data_rate: 5 }.as_bytes(), b"AT+DR=5\r\n");
    assert_eq!(LoraDrSet { data_rate: 15 }.as_bytes(), b"AT+DR=15\r\n");
    assert_eq!(LoraDrSet { data_rate: 255 }.as_bytes(), b"AT+DR=255\r\n");
}

#[test]
fn max_tx_len_get() {
    let k = LoraMaxTxLengthGet {}.as_bytes();
    assert_eq!(k, b"AT+TX_LEN=?\r\n");
}

#[test]
fn uplink_confirm_get() {
    let k = UplinkConfirmGet {}.as_bytes();
    assert_eq!(k, b"AT+CONFIRM=?\r\n");
}

#[test]
fn uplink_confirm_set() {
    let k = UplinkConfirmSet::on().as_bytes();
    assert_eq!(k, b"AT+CONFIRM=ON\r\n");
    let k = UplinkConfirmSet::off().as_bytes();
    assert_eq!(k, b"AT+CONFIRM=OFF\r\n");
}

#[test]
fn send_bytes() {
    let mut v = [0; 256];
    v[0] = 0xAB;
    v[1] = 0xCD;
    v[2] = 0xEF;
    v[3] = 0x01;
    let k = SendBytes::new(3, 12, &v).as_bytes();
    assert_eq!(k, b"AT+SENDB=3:12:ABCDEF01\r\n");
}

#[test]
fn send_bytes_edge_cases() {
    assert_eq!(SendBytes::new(0, 0, &[]).as_bytes(), b"AT+SENDB=0:0:00\r\n");
    assert_eq!(SendBytes::new(1, 2, &[0, 0, 0]).as_bytes(), b"AT+SENDB=1:2:00\r\n");
    assert_eq!(SendBytes::new(255, 255, &[0, 7, 0]).as_bytes(), b"AT+SENDB=255:255:0007\r\n");
    let long = [0x5Au8; 300];
    let k = SendBytes::new(1, 1, &long).as_bytes();
    assert_eq!(k.len(), "AT+SENDB=1:1:".len() + 512 + 2);
    assert!(k.ends_with(b"5A5A\r\n"));
}

#[test]
fn send_bytes_unprocessed() {
    let k = SendBytesUnprocessed { retransmission_times: 3, port: 12, data: vec![0xAB, 0xCD] }
        .processed();
    assert_eq!(k.val, b"3:12:ABCD");
    assert!(!k.val.contains(&b','));
}

#[test]
fn receive_bytes() {
    let k = LoraReceiveBytes {}.as_bytes();
    assert_eq!(k, b"AT+RECVB=?\r\n");
}

#[test]
fn frame_counts() {
    assert_eq!(UplinkFrameCountGet {}.as_bytes(), b"AT+UP_CNT=?\r\n");
    assert_eq!(DownlinkFrameCountGet {}.as_bytes(), b"AT+DOWN_CNT=?\r\n");
}
