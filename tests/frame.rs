use atri_core::frame::{Frame, FrameRoute, FramingError};
use atri_core::packet::{BinWriter, Encrypt, Packet, PacketDetail};
use atri_core::tea::Tea;

fn packet(seq: u32, detail: PacketDetail, encrypt: Encrypt, command: &'static str, body: Vec<u8>) -> Packet {
    Packet {
        seq,
        uin: 0x0102_0304_0506_0708,
        packet_detail: detail,
        encrypt,
        command,
        body,
        message: String::new(),
    }
}

#[test]
fn encode_uin_frame_exact_bytes() {
    let key = Tea::from_key([0, 0, 0, 0]);
    let p = packet(7, PacketDetail::Uin, Encrypt::NoEncrypt, "ab", vec![9, 9]);
    let b = p.build_sso_packet(&key);
    let expected: Vec<u8> = vec![
        0, 0, 0, 29, 0, 0, 0, 0x0B, 1, 2, 3, 4, 5, 6, 7, 8, 0, 0, 0, 2, b'a', b'b', 0, 0, 0, 7, 9,
        9, 0,
    ];
    assert_eq!(&b[..], &expected[..]);
}

#[test]
fn encode_login_frame_exact_bytes() {
    let key = Tea::from_key([0, 0, 0, 0]);
    let p = packet(5, PacketDetail::Login, Encrypt::NoEncrypt, "x", vec![]);
    let b = p.build_sso_packet(&key);
    let expected: Vec<u8> = vec![0, 0, 0, 22, 0, 0, 0, 0x0A, 0, 0, 0, 5, 0, 0, 0, 1, b'x', 0, 0, 0, 5, 0];
    assert_eq!(&b[..], &expected[..]);
}

#[test]
fn frame_round_trip() {
    let key = Tea::from_key([3, 1, 4, 1]);
    for detail in [PacketDetail::Uin, PacketDetail::Login] {
        for enc in [Encrypt::UseD2Key, Encrypt::NoEncrypt] {
            let body: Vec<u8> = (0..50u8).collect();
            let p = packet(0x1234, detail, enc, "wtlogin.login", body.clone());
            let b = p.build_sso_packet(&key);
            let (f, n) = Frame::decode(&b).unwrap();
            assert_eq!(n, b.len());
            assert_eq!(f.seq, 0x1234);
            assert_eq!(&f.command[..], b"wtlogin.login");
            match detail {
                PacketDetail::Uin => assert_eq!(f.route, FrameRoute::Uin(0x0102_0304_0506_0708)),
                PacketDetail::Login => assert_eq!(f.route, FrameRoute::Login),
            }
            match enc {
                Encrypt::UseD2Key => {
                    assert_ne!(f.body, body);
                    assert_eq!(&key.decrypt(&f.body).unwrap()[..], &body[..]);
                }
                Encrypt::NoEncrypt => assert_eq!(f.body, body),
            }
        }
    }
}

#[test]
fn decode_reports_incomplete() {
    let key = Tea::from_key([0, 0, 0, 0]);
    let b = packet(7, PacketDetail::Uin, Encrypt::NoEncrypt, "ab", vec![9, 9]).build_sso_packet(&key);
    assert_eq!(Frame::decode(&b[..3]).unwrap_err(), FramingError::Incomplete);
    assert_eq!(Frame::decode(&b[..28]).unwrap_err(), FramingError::Incomplete);
    let mut longer = b.to_vec();
    longer.extend_from_slice(&[1, 2, 3]);
    let (_, n) = Frame::decode(&longer).unwrap();
    assert_eq!(n, 29);
}

#[test]
fn decode_reports_malformed() {
    let key = Tea::from_key([0, 0, 0, 0]);
    let b = packet(7, PacketDetail::Uin, Encrypt::NoEncrypt, "ab", vec![9, 9]).build_sso_packet(&key).to_vec();
    let mut bad_marker = b.clone();
    bad_marker[7] = 0x0C;
    assert_eq!(Frame::decode(&bad_marker).unwrap_err(), FramingError::Malformed);
    let mut bad_terminator = b.clone();
    bad_terminator[28] = 1;
    assert_eq!(Frame::decode(&bad_terminator).unwrap_err(), FramingError::Malformed);
    let mut bad_command_len = b.clone();
    bad_command_len[19] = 100;
    assert_eq!(Frame::decode(&bad_command_len).unwrap_err(), FramingError::Malformed);
    assert_eq!(Frame::decode(&[0, 0, 0, 5, 0]).unwrap_err(), FramingError::Malformed);
    let login = packet(5, PacketDetail::Login, Encrypt::NoEncrypt, "x", vec![]).build_sso_packet(&key);
    let mut mismatched = login.to_vec();
    mismatched[11] = 6;
    assert_eq!(Frame::decode(&mismatched).unwrap_err(), FramingError::Malformed);
}

#[test]
fn bin_writer_writes_big_endian() {
    let mut w = BinWriter::with_capacity(16);
    w.write_u8(1);
    w.write_u16_be(0x0203);
    w.write_u32_be(0x0405_0607);
    w.write_u64_be(0x0809_0a0b_0c0d_0e0f);
    w.write_bytes(&[0x10]);
    w.extend_from_slice(&[0x11, 0x12]);
    assert_eq!(w.len(), 18);
    assert_eq!(w.into_vec(), (1u8..=0x12).collect::<Vec<u8>>());
    assert_eq!(BinWriter::new().len(), 0);
}
