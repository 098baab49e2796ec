use atri_core::error::ClientError;
use atri_core::frame::Frame;
use atri_core::packet::{Encrypt, Packet, PacketDetail};
use atri_core::session::{ClientEvent, Delivery, ReadStep, RequestClient, WaitOutcome};
use atri_core::tea::Tea;

fn packet(seq: u32, encrypt: Encrypt, body: Vec<u8>) -> Packet {
    Packet {
        seq,
        uin: 42,
        packet_detail: PacketDetail::Uin,
        encrypt,
        command: "test.cmd",
        body,
        message: String::new(),
    }
}

fn inbound_frame(core: &RequestClient, seq: u32, body: &[u8]) -> Frame {
    let bytes = packet(seq, Encrypt::UseD2Key, body.to_vec()).build_sso_packet(core.session_key());
    Frame::decode(&bytes).unwrap().0
}

#[test]
fn identity_gate() {
    let mut core = RequestClient::new();
    assert!(matches!(core.uin(), Err(ClientError::NotInitialized)));
    assert!(core.set_uin(123456789));
    assert_eq!(core.uin().unwrap(), 123456789);
    assert!(!core.set_uin(5));
    assert_eq!(core.uin().unwrap(), 123456789);
}

#[test]
fn sequence_numbers_are_distinct_until_wrap() {
    let mut core = RequestClient::new();
    let mut seen = vec![false; 65536];
    for i in 0..65536u32 {
        let s = core.next_seq();
        assert_eq!(s as u32, i);
        assert!(!seen[s as usize]);
        seen[s as usize] = true;
    }
    assert_eq!(core.next_seq(), 0);
}

#[test]
fn response_fulfills_waiting_request_once() {
    let mut core = RequestClient::new();
    core.set_session_key(Tea::from_key([9, 8, 7, 6]));
    let rx = core.submit(packet(3, Encrypt::UseD2Key, vec![1]), true).unwrap().unwrap();
    assert!(core.is_pending(3));
    let d = core.on_frame_received(inbound_frame(&core, 3, b"pong"));
    assert!(matches!(d, Delivery::Fulfilled(3)));
    assert!(!core.is_pending(3));
    let got = futures::executor::block_on(rx).unwrap();
    assert_eq!(&got[..], b"pong");
    let again = core.on_frame_received(inbound_frame(&core, 3, b"pong"));
    assert!(!matches!(again, Delivery::Fulfilled(_)));
    assert!(!core.is_pending(3));
}

#[test]
fn unmatched_frame_becomes_event() {
    let mut core = RequestClient::new();
    let d = core.on_frame_received(inbound_frame(&core, 77, b"push"));
    match d {
        Delivery::Event(ClientEvent::ServerPush { seq, command, payload }) => {
            assert_eq!(seq, 77);
            assert_eq!(&command[..], b"test.cmd");
            assert_eq!(&payload[..], b"push");
        }
        _ => panic!("expected an event"),
    }
}

#[test]
fn undecryptable_frame_is_discarded() {
    let mut core = RequestClient::new();
    let _rx = core.submit(packet(4, Encrypt::NoEncrypt, vec![]), true).unwrap();
    let bytes = packet(4, Encrypt::NoEncrypt, vec![1, 2, 3]).build_sso_packet(core.session_key());
    let frame = Frame::decode(&bytes).unwrap().0;
    assert!(matches!(core.on_frame_received(frame), Delivery::Discarded));
    assert!(core.is_pending(4));
}

#[test]
fn timeout_releases_slot() {
    let mut core = RequestClient::new();
    let _rx = core.submit(packet(9, Encrypt::UseD2Key, vec![1, 2]), true).unwrap().unwrap();
    assert!(core.is_pending(9));
    let r = core.finish_wait(9, WaitOutcome::TimedOut);
    assert!(matches!(r, Err(ClientError::Timeout)));
    assert!(!core.is_pending(9));
}

#[test]
fn duplicate_sequence_is_refused() {
    let mut core = RequestClient::new();
    let _rx = core.submit(packet(2, Encrypt::UseD2Key, vec![]), true).unwrap();
    let r = core.submit(packet(2, Encrypt::UseD2Key, vec![]), true);
    assert!(matches!(r, Err(ClientError::SequenceInUse)));
    assert!(core.cancel_request(2));
    assert!(!core.cancel_request(2));
}

#[test]
fn malformed_frame_closes_session() {
    let mut core = RequestClient::new();
    let rx = core.submit(packet(1, Encrypt::UseD2Key, vec![]), true).unwrap().unwrap();
    let mut bytes = packet(1, Encrypt::UseD2Key, vec![5]).build_sso_packet(core.session_key()).to_vec();
    bytes[19] = 200;
    assert!(matches!(core.read_frame(&bytes), ReadStep::Closed));
    assert!(core.is_closed());
    assert!(!core.is_pending(1));
    assert!(futures::executor::block_on(rx).is_err());
    let r = core.submit(packet(2, Encrypt::UseD2Key, vec![]), false);
    assert!(matches!(r, Err(ClientError::SessionClosed)));
}

#[test]
fn reader_waits_for_whole_frame() {
    let mut core = RequestClient::new();
    let bytes = packet(6, Encrypt::UseD2Key, vec![5]).build_sso_packet(core.session_key());
    assert!(matches!(core.read_frame(&bytes[..10]), ReadStep::NeedMore));
    match core.read_frame(&bytes) {
        ReadStep::Frame { consumed, delivery } => {
            assert_eq!(consumed, bytes.len());
            assert!(matches!(delivery, Delivery::Event(_)));
        }
        _ => panic!("expected a frame"),
    }
    assert!(!core.is_closed());
}

#[test]
fn released_wait_reports_connection_lost() {
    let mut core = RequestClient::new();
    let r = core.finish_wait(1, WaitOutcome::Released);
    assert!(matches!(r, Err(ClientError::ConnectionLost)));
    let ok = core.finish_wait(1, WaitOutcome::Received(bytes::Bytes::from(vec![1u8])));
    assert_eq!(&ok.unwrap()[..], &[1u8]);
}

#[test]
fn ordered_writes() {
    let mut core = RequestClient::new();
    let mut rx = core.take_writer_queue().unwrap();
    assert!(core.take_writer_queue().is_none());
    for seq in 1..=3u32 {
        core.submit(packet(seq, Encrypt::UseD2Key, vec![seq as u8]), false).unwrap();
    }
    let mut wire: Vec<u8> = Vec::new();
    let mut order: Vec<u32> = Vec::new();
    while let Ok(Some(p)) = rx.try_next() {
        order.push(p.seq);
        wire.extend_from_slice(&p.build_sso_packet(core.session_key()));
    }
    assert_eq!(order, vec![1, 2, 3]);
    let mut expected: Vec<u8> = Vec::new();
    for seq in 1..=3u32 {
        expected.extend_from_slice(&packet(seq, Encrypt::UseD2Key, vec![seq as u8]).build_sso_packet(core.session_key()));
    }
    assert_eq!(wire, expected);
    core.close();
    assert!(matches!(rx.try_next(), Ok(None)));
}
