use room_rtc::rtcp::error::RtcpError;
use room_rtc::rtcp::report_handler::{
    now_nanos, Handshake, HandshakeAction, PackageReportReceiver, ReportEvent, ReportReceiver,
    RtcpReportHandler, RETRY_LIMIT,
};
use room_rtc::rtcp::rtcp_package::RTCPPackage;
use room_rtc::rtcp::rtcp_packet::RtcpPacket;
use room_rtc::rtp::connection_status::ConnectionStatus;

const SECOND: i64 = 1_000_000_000;

#[test]
fn rtcp_packets_have_ascii_wire_forms() {
    assert_eq!(RtcpPacket::ConnectivityReport.as_bytes(), b"CR");
    assert_eq!(RtcpPacket::Goodbye.as_bytes(), b"BY");
    assert_eq!(RtcpPacket::Hello.as_bytes(), b"HELLO");
    assert_eq!(RtcpPacket::Ready.as_bytes(), b"READY");
    for p in [RtcpPacket::ConnectivityReport, RtcpPacket::Goodbye, RtcpPacket::Hello, RtcpPacket::Ready] {
        assert_eq!(RtcpPacket::from_bytes(p.as_bytes()), Some(p));
    }
    assert_eq!(RtcpPacket::from_bytes(b"CRX"), None);
    assert_eq!(RtcpPacket::from_bytes(b""), None);
}

#[test]
fn rtcp_packages_have_ascii_wire_forms() {
    assert_eq!(RTCPPackage::ConnectivityReport.as_bytes(), b"CR");
    assert_eq!(RTCPPackage::Goodbye.as_bytes(), b"BY");
    assert_eq!(RTCPPackage::from_bytes(b"BY"), Some(RTCPPackage::Goodbye));
    assert_eq!(RTCPPackage::from_bytes(b"HELLO"), None);
}

#[test]
fn handshake_opens_on_first_ready_and_ends_on_second() {
    let mut h = Handshake::new();
    assert_eq!(h.on_datagram(b"HELLO"), HandshakeAction::SendReady);
    assert_eq!(h.on_datagram(b"garbage"), HandshakeAction::Wait);
    assert_eq!(h.on_datagram(b"READY"), HandshakeAction::SendReadyAndOpen);
    assert_eq!(h.on_datagram(b"READY"), HandshakeAction::Done);
    assert_eq!(h.on_datagram(b"CR"), HandshakeAction::Unexpected);
}

#[test]
fn report_receiver_outcomes() {
    let mut r = ReportReceiver::new(0);
    let report = ReportEvent::Datagram(b"CR".to_vec());
    assert_eq!(r.try_receive_report(&report, 5 * SECOND), Ok(()));
    assert_eq!(r.last_report_nanos, 5 * SECOND);
    assert_eq!(r.try_receive_report(&ReportEvent::ReceiveError, 5 * SECOND + 10), Ok(()));
    assert_eq!(r.try_receive_report(&ReportEvent::ReceiveError, 7 * SECOND), Err(RtcpError::TimedOut));
    assert_eq!(r.try_receive_report(&ReportEvent::Datagram(b"??".to_vec()), 7 * SECOND), Err(RtcpError::TimedOut));
    assert_eq!(r.try_receive_report(&ReportEvent::Datagram(b"BY".to_vec()), 7 * SECOND), Err(RtcpError::GoodbyeReceived));
    assert_eq!(r.try_receive_report(&ReportEvent::Datagram(b"HELLO".to_vec()), 7 * SECOND), Err(RtcpError::UnexpectedMessage));
}

#[test]
fn report_receiver_stops_after_retry_limit_failures() {
    let mut r = ReportReceiver::new(0);
    let mut now = 0;
    for i in 0..RETRY_LIMIT {
        now += 2 * SECOND;
        let running = r.step(&ReportEvent::ReceiveError, now);
        assert_eq!(running, i + 1 < RETRY_LIMIT);
    }
    assert!(!r.is_running());
}

#[test]
fn report_receiver_goodbye_stops_at_once_and_report_resets() {
    let mut r = ReportReceiver::new(0);
    assert!(r.step(&ReportEvent::ReceiveError, 2 * SECOND));
    assert_eq!(r.retries, 1);
    assert!(r.step(&ReportEvent::Datagram(b"CR".to_vec()), 3 * SECOND));
    assert_eq!(r.retries, 0);
    assert!(!r.step(&ReportEvent::Datagram(b"BY".to_vec()), 3 * SECOND));
}

#[test]
fn package_receiver_uses_longer_limit() {
    let mut r = PackageReportReceiver::new(0);
    assert!(r.step(&ReportEvent::ReceiveError, 4 * SECOND));
    assert_eq!(r.retries, 0);
    assert!(r.step(&ReportEvent::ReceiveError, 6 * SECOND));
    assert_eq!(r.retries, 1);
    assert!(r.step(&ReportEvent::Datagram(b"??".to_vec()), 6 * SECOND));
    assert!(!r.step(&ReportEvent::Datagram(b"??".to_vec()), 6 * SECOND));
}

#[test]
fn test_close_connection_sets_status_closed() {
    let mut handler = RtcpReportHandler::new(ConnectionStatus::Open);

    let goodbye = handler.close_connection();

    assert_eq!(handler.connection_status, ConnectionStatus::Closed);
    assert_eq!(goodbye, b"BY".to_vec());
}

#[test]
fn report_handler_lifecycle() {
    let mut handler = RtcpReportHandler::new(ConnectionStatus::Waiting);
    assert_eq!(handler.on_handshake_datagram(b"HELLO"), HandshakeAction::SendReady);
    assert_eq!(handler.connection_status, ConnectionStatus::Waiting);
    assert_eq!(handler.on_handshake_datagram(b"READY"), HandshakeAction::SendReadyAndOpen);
    assert_eq!(handler.connection_status, ConnectionStatus::Open);
    assert_eq!(handler.start(false, 0), Err(RtcpError::SocketConfigFailed));
    assert_eq!(handler.start(true, 10), Ok(()));
    assert!(handler.report_due());
    assert!(handler.on_report_sent(true));
    assert!(handler.on_report_event(&ReportEvent::Datagram(b"CR".to_vec()), 20));
    assert!(!handler.on_report_event(&ReportEvent::Datagram(b"BY".to_vec()), 30));
    assert_eq!(handler.connection_status, ConnectionStatus::Closed);
    assert!(!handler.report_due());
}

#[test]
fn failed_report_send_closes_connection() {
    let mut handler = RtcpReportHandler::new(ConnectionStatus::Open);
    assert!(!handler.on_report_sent(false));
    assert_eq!(handler.connection_status, ConnectionStatus::Closed);
    assert!(!handler.on_report_event(&ReportEvent::Datagram(b"CR".to_vec()), 0));
}

#[test]
fn rtcp_error_messages() {
    assert_eq!(RtcpError::TimedOut.to_string(), "Error: \"Report receiver timed out\"");
    assert_eq!(
        RtcpError::SendFailed("x".into()).to_string(),
        "Error: \"Failed to send RTCP packet. Details: x\""
    );
    assert_eq!(RtcpPacket::Hello.to_string().is_empty(), false);
}

#[test]
fn exchange_started_on_the_clock_records_the_current_time() {
    let before = now_nanos();
    let mut h = RtcpReportHandler::new(ConnectionStatus::Open);
    assert!(h.start_now(true).is_ok());
    let after = now_nanos();
    assert!(before <= h.receiver.last_report_nanos && h.receiver.last_report_nanos <= after);
    assert!(before > 1_600_000_000 * SECOND);
    assert!(matches!(h.start_now(false), Err(RtcpError::SocketConfigFailed)));
}

#[test]
fn report_on_the_clock_keeps_the_receiver_listening() {
    let mut h = RtcpReportHandler::new(ConnectionStatus::Open);
    assert!(h.start_now(true).is_ok());
    let started = h.receiver.last_report_nanos;
    let report = ReportEvent::Datagram(RtcpPacket::ConnectivityReport.as_bytes().to_vec());
    assert!(h.on_report_event_now(&report));
    assert_eq!(h.receiver.retries, 0);
    assert!(h.receiver.last_report_nanos >= started);
    let bye = ReportEvent::Datagram(RtcpPacket::Goodbye.as_bytes().to_vec());
    assert!(!h.on_report_event_now(&bye));
    assert_eq!(h.connection_status, ConnectionStatus::Closed);
}

#[test]
fn report_only_receiver_on_the_clock_counts_failures() {
    let mut r = PackageReportReceiver::new(now_nanos());
    let garbage = ReportEvent::Datagram(vec![0xEE]);
    assert!(r.step_now(&garbage));
    assert_eq!(r.retries, 1);
    let report = ReportEvent::Datagram(RTCPPackage::ConnectivityReport.as_bytes().to_vec());
    assert!(r.step_now(&report));
    assert_eq!(r.retries, 0);
}
