use room_rtc::rtp::connection_status::ConnectionStatus;
use room_rtc::rtp::error::RtpError;
use room_rtc::rtp::receiver::{receive_step, ReceiveStep, RtpSocketEvent};
use room_rtc::rtp::rtp_package::RtpPackage;
use room_rtc::rtp::rtp_packet::RtpPacket;
use room_rtc::rtp::sender::RtpSender;

#[test]
fn rtp_package_layout_and_roundtrip() {
    let p = RtpPackage::new(true, 96, vec![7, 8], 0x01020304, 0xABCD, 0x0A0B0C0D);
    let bytes = p.to_bytes();
    assert_eq!(bytes, vec![0x80, 96, 0xAB, 0xCD, 1, 2, 3, 4, 0x0A, 0x0B, 0x0C, 0x0D, 7, 8]);
    let q = RtpPackage::from_bytes(&bytes).unwrap();
    assert_eq!(q.version, 2);
    assert!(q.marker);
    assert_eq!(q.sequence_number, 0xABCD);
    assert_eq!(q.payload, vec![7, 8]);
    assert!(RtpPackage::from_bytes(&bytes[..11]).is_none());
}

#[test]
fn rtp_package_version_bit_shares_the_marker_bit() {
    let p = RtpPackage::new(false, 0, vec![], 0, 0, 0);
    assert_eq!(p.to_bytes()[0], 0x80);
    let q = RtpPackage::from_bytes(&p.to_bytes()).unwrap();
    assert_eq!(q.version, 2);
    assert!(q.marker);
    let r = RtpPackage::from_bytes(&[0x40, 0, 0, 0, 0, 0, 0, 0, 0, 0, 0, 0]).unwrap();
    assert_eq!(r.version, 1);
    assert!(!r.marker);
}

#[test]
fn receiver_classifies_datagrams() {
    assert!(matches!(receive_step(RtpSocketEvent::Datagram(vec![]), ConnectionStatus::Open), ReceiveStep::Wait));
    assert!(matches!(receive_step(RtpSocketEvent::Datagram(vec![22, 1]), ConnectionStatus::Open), ReceiveStep::Wait));
    assert!(matches!(receive_step(RtpSocketEvent::Datagram(vec![100]), ConnectionStatus::Open), ReceiveStep::Wait));
    match receive_step(RtpSocketEvent::Datagram(vec![128, 5]), ConnectionStatus::Open) {
        ReceiveStep::Unprotect(d) => assert_eq!(d, vec![128, 5]),
        _ => panic!("expected an RTP packet"),
    }
    assert!(matches!(receive_step(RtpSocketEvent::Datagram(vec![191]), ConnectionStatus::Closed), ReceiveStep::Unprotect(_)));
    assert!(matches!(receive_step(RtpSocketEvent::Datagram(vec![192]), ConnectionStatus::Open), ReceiveStep::Wait));
}

#[test]
fn receiver_timeouts_and_failures() {
    assert!(matches!(receive_step(RtpSocketEvent::WouldBlock, ConnectionStatus::Open), ReceiveStep::Wait));
    assert!(matches!(
        receive_step(RtpSocketEvent::WouldBlock, ConnectionStatus::Closed),
        ReceiveStep::Fail(RtpError::ConnectionClosed)
    ));
    match receive_step(RtpSocketEvent::Failed("boom".into()), ConnectionStatus::Open) {
        ReceiveStep::CloseReportsAndFail(RtpError::ReceiveFailed(m)) => assert_eq!(m, "boom"),
        _ => panic!("expected a failure"),
    }
}

#[test]
fn sender_builds_packets_until_closed() {
    let sender = RtpSender::new(42, 2);
    let bytes = sender.send(ConnectionStatus::Open, &[1, 2, 3], 96, 7, 8, 9, 1).unwrap();
    let packet = RtpPacket::from_bytes(&bytes).unwrap();
    assert_eq!(packet.ssrc, 42);
    assert_eq!(packet.version, 2);
    assert_eq!(packet.frame_id, 8);
    assert_eq!(packet.chunk_id, 9);
    assert_eq!(packet.marker, 1);
    assert_eq!(packet.payload, vec![1, 2, 3]);
    assert_eq!(sender.send(ConnectionStatus::Closed, &[1], 96, 7, 8, 9, 1), Err(RtpError::ConnectionClosed));
}

#[test]
fn rtp_error_messages_are_distinct() {
    let errors = [
        RtpError::AddrNotAvailable,
        RtpError::SocketConfigFailed,
        RtpError::SendFailed,
        RtpError::ReceiveFailed("r".into()),
        RtpError::ConnectionClosed,
        RtpError::RTCPError("c".into()),
    ];
    let texts: Vec<String> = errors.iter().map(|e| e.to_string()).collect();
    for (i, a) in texts.iter().enumerate() {
        assert!(!a.is_empty());
        for b in texts.iter().skip(i + 1) {
            assert_ne!(a, b);
        }
    }
}
