use atri_core::builder::ClientBuilder;
use atri_core::error::ClientError;
use atri_core::device::{Apn, DeviceInfo, DeviceVersion, OSType};
use atri_core::message::MessageHeadType;
use atri_core::protocol::ProtocolInfo;
use atri_core::sync::Mutex;
use atri_core::tlv::{tlv16, tlv1b, TlvWriter};
use atri_core::transfer::{transfer_step, TransferStep};
use bytes::{BufMut, BytesMut};
use std::ops::Deref;

fn device() -> DeviceInfo {
    DeviceInfo {
        display: "RICQ.448911.001".into(),
        product: "iarim".into(),
        device: "sagit".into(),
        board: "eomam".into(),
        model: "MI 6".into(),
        boot_id: "b15f6fbe-5e29-7d9b-9e73-6a400fa19f08".into(),
        proc_version: "Linux 5.4.0-54-generic-QXp0SDMw (android-build@google.com)".into(),
        imei: "582827438036112".into(),
        brand: "Xiaomi".into(),
        bootloader: "U-boot".into(),
        base_band: "".into(),
        version: DeviceVersion {
            incremental: 5891938,
            release: "10".into(),
            codename: "REL".into(),
            sdk: 29,
        },
        sim: "T-Mobile".into(),
        os_type: OSType::Android,
        mac_address: "00:50:56:C0:00:08".into(),
        ip_address: [10, 0, 1, 3],
        wifi_bssid: "00:50:56:C0:00:08".into(),
        wifi_ssid: "MiWifi".into(),
        imsi: [6, 202, 21, 94, 8, 98, 96, 116, 162, 56, 14, 239, 3, 169, 240, 149],
        android_id: "d7fc70a09f4cc4f5".into(),
        apn: Apn::WiFi,
    }
}

#[test]
fn lock() {
    let m = Mutex::const_new(1);
    *m.lock() = 12;

    assert_eq!(12, *m.lock().deref());
}

#[test]
fn a() {
    let device = device();

    let protocol = ProtocolInfo::android_watch();
    let guid = device.guid();

    let mut b = BytesMut::new();
    b.put_u16(0);
    b.put_u32(16);
    b.put_u64(0);
    b.put_u8(8);
    b.put_u16(0);
    b.put_u16(6);
    b.put_slice(&tlv16(&protocol, &guid));

    println!("{:?}", &*b);
}

#[test]
fn fingerprint_format() {
    assert_eq!(
        device().fingerprint(),
        "Xiaomi/iarim/sagit:10/d7fc70a09f4cc4f5/5891938:user/release-keys"
    );
}

#[test]
fn guid_is_md5_of_imei_and_mac() {
    assert_eq!(
        device().guid(),
        [100, 162, 103, 204, 246, 171, 187, 185, 40, 68, 159, 245, 108, 68, 88, 33]
    );
}

#[test]
fn tlv16_layout() {
    let protocol = ProtocolInfo::android_watch();
    let guid = [7u8; 16];
    let t = tlv16(&protocol, &guid);
    let payload_len = 12 + 16 + 2 + 18 + 2 + 5 + 2 + 16;
    assert_eq!(t.len(), 4 + payload_len);
    assert_eq!(&t[..4], &[0, 0x16, 0, payload_len as u8]);
    assert_eq!(&t[4..16], &[0, 0, 0, 5, 0, 0, 0, 16, 0x20, 0x02, 0xF3, 0xFE]);
    assert_eq!(&t[16..32], &guid);
    assert_eq!(&t[32..34], &[0, 18]);
    assert_eq!(&t[34..52], b"com.tencent.qqlite");
}

#[test]
fn tlv1b_layout() {
    let t = tlv1b();
    let expected: Vec<u8> = vec![
        0, 0x1b, 0, 30, 0, 0, 0, 0, 0, 0, 0, 0, 0, 0, 0, 3, 0, 0, 0, 4, 0, 0, 0, 72, 0, 0, 0, 2,
        0, 0, 0, 2, 0, 0,
    ];
    assert_eq!(&t[..], &expected[..]);
}

#[test]
fn tlv_writer_fills_length() {
    let mut w = TlvWriter::with_capacity(0x0102, 8);
    w.write(b"abc");
    w.put_u16(0x0405);
    let b = w.complete();
    assert_eq!(&b[..], &[1, 2, 0, 7, 0, 3, b'a', b'b', b'c', 4, 5]);
    assert_eq!(&TlvWriter::new(9).into_bytes_mut()[..], &[0, 9, 0, 0]);
}

#[test]
fn message_type_numbers() {
    assert_eq!(MessageHeadType::Troop.value(), 82);
    assert_eq!(MessageHeadType::from_i32(82), Some(MessageHeadType::Troop));
    assert_eq!(MessageHeadType::from_i32(81), None);
}

#[test]
fn builder_keeps_choices() {
    let b = ClientBuilder::new().with_handler(5u8).with_executor("exec").with_connector(vec![1u8]);
    assert_eq!(b.base().uin().is_err(), true);
    let (h, core, e, c) = b.into_parts();
    assert_eq!(h, 5u8);
    assert_eq!(e, "exec");
    assert_eq!(c, vec![1u8]);
    assert!(!core.is_closed());
}

#[test]
fn transfer_steps() {
    assert_eq!(transfer_step(0, 10, 0), TransferStep::Short);
    assert_eq!(transfer_step(0, 10, 4), TransferStep::Continue(4));
    assert_eq!(transfer_step(4, 10, 6), TransferStep::Done);
    assert_eq!(transfer_step(4, 10, 7), TransferStep::Short);
}

#[test]
fn defaults_and_conversions() {
    let core = atri_core::session::RequestClient::default();
    assert!(core.uin().is_err());
    assert!(!core.is_closed());
    let b: ClientBuilder<(), (), ()> = Default::default();
    assert!(!b.base().is_closed());
    let w = atri_core::packet::BinWriter::from(vec![1u8, 2]);
    assert_eq!(w.into_vec(), vec![1u8, 2]);
}

#[test]
fn android_watch_fields() {
    let p = ProtocolInfo::android_watch();
    assert_eq!(p.id, "com.tencent.qqlite");
    assert_eq!(p.version, "2.0.5");
    assert_eq!(p.sign, [166, 183, 69, 191, 36, 162, 194, 119, 82, 119, 22, 246, 243, 110, 182, 141]);
    let t = tlv16(&p, &[0u8; 16]);
    assert_eq!(t.len(), 77);
    assert_eq!(&t[0..4], &[0x00, 0x16, 0x00, 0x49]);
}

#[test]
fn error_descriptions() {
    assert_eq!(ClientError::NotInitialized.description(), "Client is not initialized");
    assert_eq!(ClientError::TokenExpired.description(), "Token expired");
    assert_eq!(ClientError::Timeout.description(), "Timed out waiting for the response");
    let e: ClientError = std::io::Error::from(std::io::ErrorKind::Other).into();
    assert_eq!(e.description(), "IO Error");
}
