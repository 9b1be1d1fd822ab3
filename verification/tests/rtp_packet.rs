use room_rtc::rtp::rtp_packet::RtpPacket;

#[test]
fn test_rtp_packet_serialization_roundtrip() {
    let sent_packet = RtpPacket::new(
        2,
        5,
        96,
        vec![10, 20, 30, 40, 50],
        1_122_334_455,
        123_456_789,
        42,
        987_654_321,
    );

    let bytes = sent_packet.to_bytes();
    let deserialized_option = RtpPacket::from_bytes(&bytes);

    assert!(deserialized_option.is_some(), "from_bytes returned None");

    let deserialized_packet = deserialized_option.unwrap();

    assert_eq!(sent_packet.version, deserialized_packet.version, "Version mismatch");
    assert_eq!(sent_packet.marker, deserialized_packet.marker, "Marker mismatch");
    assert_eq!(
        sent_packet.payload_type, deserialized_packet.payload_type,
        "Payload type mismatch"
    );
    assert_eq!(sent_packet.frame_id, deserialized_packet.frame_id, "Frame ID mismatch");
    assert_eq!(sent_packet.chunk_id, deserialized_packet.chunk_id, "Chunk ID mismatch");
    assert_eq!(sent_packet.timestamp, deserialized_packet.timestamp, "Timestamp mismatch");
    assert_eq!(sent_packet.ssrc, deserialized_packet.ssrc, "SSRC mismatch");
    assert_eq!(sent_packet.payload, deserialized_packet.payload, "Payload data mismatch");
}

#[test]
fn rtp_packet_test_from_bytes_too_short() {
    let short_bytes: &[u8] = &[0; 27];

    let result = RtpPacket::from_bytes(short_bytes);

    assert!(result.is_none(), "Expected None for a packet shorter than the header");
}

#[test]
fn test_from_bytes_exactly_header_size() {
    let header_only_bytes: &[u8] = &[
        2, 96, 0, 0, 0, 0, 0, 0, 0, 1, 0, 0, 0, 0, 0, 0, 0, 0, 0, 0, 0, 100, 0, 1, 0, 0, 0, 2,
    ];

    let result = RtpPacket::from_bytes(header_only_bytes);

    assert!(result.is_some(), "Packet with exact header size should deserialize");
    let packet = result.unwrap();
    assert_eq!(packet.frame_id, 1);
    assert_eq!(packet.timestamp, 100);
    assert_eq!(packet.ssrc, 2);
    assert!(packet.payload.is_empty(), "Payload should be empty");
}

#[test]
fn test_from_bytes_empty_slice() {
    let empty_bytes: &[u8] = &[];

    let result = RtpPacket::from_bytes(empty_bytes);

    assert!(result.is_none(), "Expected None for an empty byte slice");
}

#[test]
fn rtp_packet_wire_layout_is_big_endian() {
    let packet = RtpPacket::new(2, 0x0102, 96, vec![0xAA], 0x0A0B0C0D, 0x1122334455667788, 7, 0xCAFEBABE);
    let bytes = packet.to_bytes();
    assert_eq!(
        bytes,
        vec![
            2, 96, 0x11, 0x22, 0x33, 0x44, 0x55, 0x66, 0x77, 0x88, 0, 0, 0, 0, 0, 0, 0, 7, 0x0A,
            0x0B, 0x0C, 0x0D, 0x01, 0x02, 0xCA, 0xFE, 0xBA, 0xBE, 0xAA,
        ]
    );
}

#[test]
fn rtp_packet_reencodes_received_bytes() {
    let data: Vec<u8> = (0u8..40).collect();
    let packet = RtpPacket::from_bytes(&data).expect("28 bytes or more decode");
    assert_eq!(packet.to_bytes(), data);
    assert_eq!(packet.payload, (28u8..40).collect::<Vec<u8>>());
}
