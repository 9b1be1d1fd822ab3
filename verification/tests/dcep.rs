use room_rtc::sctp_transport::data_channel::data_channel::{ack_timed_out, open_timed_out};
use room_rtc::sctp_transport::data_channel::dc_type::DataChannelType;
use room_rtc::sctp_transport::data_channel::dcep::DCEPMessage;
use room_rtc::sctp_transport::data_channel::error::DataChannelError;
use room_rtc::sctp_transport::error::SCTPTransportError;

#[test]
fn dcep_open_layout_and_roundtrip() {
    let msg = DCEPMessage::DataChannelOpen {
        channel_type: DataChannelType::Reliable,
        priority: 0x0102,
        reliability_parameter: 0x03040506,
        label: "chat".into(),
        protocol: "ñ".into(),
    };
    let bytes = msg.to_bytes();
    assert_eq!(
        bytes,
        vec![0x03, 0x00, 0x01, 0x02, 0x03, 0x04, 0x05, 0x06, 0, 4, 0, 2, b'c', b'h', b'a', b't', 0xC3, 0xB1]
    );
    match DCEPMessage::from_bytes(&bytes) {
        Some(DCEPMessage::DataChannelOpen { channel_type, priority, reliability_parameter, label, protocol }) => {
            assert_eq!(channel_type, DataChannelType::Reliable);
            assert_eq!(priority, 0x0102);
            assert_eq!(reliability_parameter, 0x03040506);
            assert_eq!(label, "chat");
            assert_eq!(protocol, "ñ");
        }
        _ => panic!("expected an open message"),
    }
}

#[test]
fn dcep_ack_and_malformed_messages() {
    assert_eq!(DCEPMessage::DataChannelAck.to_bytes(), vec![0x02]);
    assert!(matches!(DCEPMessage::from_bytes(&[0x02]), Some(DCEPMessage::DataChannelAck)));
    assert!(DCEPMessage::from_bytes(&[]).is_none());
    assert!(DCEPMessage::from_bytes(&[0x07]).is_none());
    assert!(DCEPMessage::from_bytes(&[0x03, 0, 0, 0, 0, 0, 0, 0, 0, 0, 0]).is_none());
    assert!(DCEPMessage::from_bytes(&[0x03, 1, 0, 0, 0, 0, 0, 0, 0, 0, 0, 0]).is_none());
    assert!(DCEPMessage::from_bytes(&[0x03, 0, 0, 0, 0, 0, 0, 0, 0, 2, 0, 0, b'a']).is_none());
    assert!(DCEPMessage::from_bytes(&[0x03, 0, 0, 0, 0, 0, 0, 0, 0, 1, 0, 0, 0xFF]).is_none());
}

#[test]
fn dcep_timeouts() {
    assert!(!ack_timed_out(10, 0));
    assert!(!ack_timed_out(10, 10));
    assert!(ack_timed_out(11, 10));
    assert!(!open_timed_out(u128::MAX, 0));
    assert!(open_timed_out(501, 500));
}

#[test]
fn transport_error_messages() {
    assert!(!SCTPTransportError::ConnectError("x".into()).to_string().is_empty());
    assert!(DataChannelError::OpenTimeout.to_string() != DataChannelError::SendError("".into()).to_string());
}

#[test]
fn dcep_open_in_a_padded_buffer_decodes_the_same() {
    let msg = DCEPMessage::DataChannelOpen {
        channel_type: DataChannelType::Reliable,
        priority: 7,
        reliability_parameter: 9,
        label: "files".into(),
        protocol: "".into(),
    };
    let mut buf = msg.to_bytes();
    buf.extend_from_slice(&[0u8; 32]);
    match DCEPMessage::from_bytes(&buf) {
        Some(DCEPMessage::DataChannelOpen { priority, reliability_parameter, label, protocol, .. }) => {
            assert_eq!((priority, reliability_parameter), (7, 9));
            assert_eq!(label, "files");
            assert_eq!(protocol, "");
        }
        _ => panic!("expected an open message"),
    }
    let mut ack = DCEPMessage::DataChannelAck.to_bytes();
    ack.extend_from_slice(&[1, 2, 3]);
    assert!(matches!(DCEPMessage::from_bytes(&ack), Some(DCEPMessage::DataChannelAck)));
}
