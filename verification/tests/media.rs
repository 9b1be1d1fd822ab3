use openh264::encoder::{
    BitRate, Complexity, Encoder as H264Encoder, EncoderConfig, FrameRate, IntraFramePeriod,
    RateControlMode, UsageType,
};
use openh264::OpenH264API;
use room_rtc::media::audio::error::AudioError;
use room_rtc::media::audio::ring_buffer::AudioRingBuffer;
use room_rtc::media::camera::error::CameraError;
use room_rtc::media::error::MediaPipelineError;
use room_rtc::media::frame_handler::color_space::{rgb_to_yuv420, yuv420_to_rgb, YuvImage};
use room_rtc::media::frame_handler::decoder::{frame_of_decoded, Decoder};
use room_rtc::media::frame_handler::encoded_frame::EncodedFrame;
use room_rtc::media::frame_handler::encoder::{generate_chunks_from_bitstream, Encoder};
use room_rtc::media::frame_handler::error::FrameError as Error;
use room_rtc::media::frame_handler::frame::Frame;
use room_rtc::media::media_pipeline::{
    audio_packet, route_packet, send_encoded_frame, AudioStreamConfig, PacketRoute, VideoStreamConfig,
};

#[test]
fn test_frame_serialization_roundtrip() {
    let sent_frame = Frame { data: vec![10, 20, 30, 40, 50, 60], width: 2, height: 1 };

    let bytes = sent_frame.to_bytes().expect("Failed to serialize frame");

    assert_eq!(bytes.len(), 8 + 6);

    let deserialized_frame_option = Frame::from_bytes(&bytes);

    assert!(deserialized_frame_option.is_some(), "Deserialization failed and returned None");

    let deserialized_frame = deserialized_frame_option.unwrap();

    assert_eq!(sent_frame, deserialized_frame);
}

#[test]
fn test_frame_with_empty_data() {
    let sent_frame = Frame { data: vec![], width: 640, height: 480 };

    let bytes = sent_frame.to_bytes().expect("Failed to serialize frame");

    assert_eq!(bytes.len(), 8);

    let deserialized_frame =
        Frame::from_bytes(&bytes).expect("Deserialization of empty frame failed");

    assert_eq!(sent_frame, deserialized_frame);
}

#[test]
fn frame_test_from_bytes_too_short() {
    let short_bytes: &[u8] = &[0; 7];
    let result = Frame::from_bytes(short_bytes);
    assert!(result.is_none());
}

#[test]
fn frame_header_is_little_endian() {
    let frame = Frame { data: vec![9], width: 0x0102, height: 0x030405 };
    assert_eq!(frame.to_bytes().unwrap(), vec![0x02, 0x01, 0, 0, 0x05, 0x04, 0x03, 0, 9]);
}

#[test]
fn frame_with_oversized_dimension_is_refused() {
    let frame = Frame { data: vec![], width: (u32::MAX as usize) + 1, height: 1 };
    assert!(matches!(frame.to_bytes(), Err(Error::DimensionConversionError)));
}

#[test]
fn test_buffer_flow() {
    let mut rb = AudioRingBuffer::new(10);

    rb.push(&[1.0f32, 2.0, 3.0, 4.0, 5.0]);

    let chunk1 = rb.pop_chunk(2).unwrap();
    assert_eq!(chunk1, vec![1.0, 2.0]);

    let chunk2 = rb.pop_chunk(2).unwrap();
    assert_eq!(chunk2, vec![3.0, 4.0]);

    assert!(rb.pop_chunk(2).is_none());
}

#[test]
fn test_buffer_wrap_around() {
    let mut rb = AudioRingBuffer::new(4);
    rb.push(&[1.0f32, 2.0, 3.0]);
    let _ = rb.pop_chunk(2);

    rb.push(&[4.0, 5.0]);

    let chunk = rb.pop_chunk(3).unwrap();
    assert_eq!(chunk, vec![3.0, 4.0, 5.0]);
}

#[test]
fn ring_buffer_overwrites_oldest_when_full() {
    let mut rb = AudioRingBuffer::new(3);
    rb.push(&[1i16, 2, 3, 4, 5]);
    assert!(rb.pop_chunk(4).is_none());
    assert_eq!(rb.pop_chunk(3).unwrap(), vec![3, 4, 5]);
    assert_eq!(rb.pop_chunk(0).unwrap(), Vec::<i16>::new());
}

#[test]
fn test_rgb_to_yuv420_2x2_valid() {
    let frame = Frame {
        width: 2,
        height: 2,
        data: vec![255, 0, 0, 0, 255, 0, 0, 0, 255, 255, 255, 255],
    };

    let res = rgb_to_yuv420(&frame);
    assert!(res.is_ok(), "Conversion should succeed for 2x2 frame");

    let yuv = res.unwrap();

    assert_eq!(yuv.width as usize, frame.width);
    assert_eq!(yuv.height as usize, frame.height);

    assert_eq!(yuv.y_plane.len(), frame.width * frame.height);

    assert_eq!(yuv.u_plane.len(), (frame.width / 2) * (frame.height / 2));
    assert_eq!(yuv.v_plane.len(), (frame.width / 2) * (frame.height / 2));

    let y_sum: usize = yuv.y_plane.iter().map(|&v| v as usize).sum();
    assert!(y_sum > 0, "Y plane appears empty");
}

#[test]
fn test_rgb_to_yuv420_insufficient_data_errors() {
    let frame = Frame { width: 2, height: 2, data: vec![255, 0, 0, 0, 255, 0, 0, 0, 255] };

    let res = rgb_to_yuv420(&frame);
    assert!(res.is_err(), "Conversion should fail with insufficient data");
}

#[test]
fn yuv_round_trip_keeps_size_and_grey() {
    let frame = Frame { width: 4, height: 4, data: vec![128u8; 4 * 4 * 3] };
    let yuv = rgb_to_yuv420(&frame).unwrap();
    let rgb = yuv420_to_rgb(&yuv).expect("size fits").expect("conversion succeeds");
    assert_eq!(rgb.len(), 48);
    assert!(rgb.iter().all(|&v| (v as i32 - 128).abs() <= 3));
}

#[test]
fn test_decoder_new() {
    let d = Decoder::new();
    assert!(d.is_ok(), "Decoder::new() should succeed");
}

#[test]
fn test_decode_invalid_data_returns_error() {
    let mut d = match Decoder::new() {
        Ok(dec) => dec,
        Err(e) => panic!("failed to create decoder: {e:?}"),
    };

    let res = d.decode_frame(&[0u8, 1, 2, 3, 4]);
    assert!(res.is_err(), "decoding invalid data should return an error");

    match res {
        Err(Error::DecodingError(_)) | Err(Error::EmptyFrameError) => {}
        Err(e) => panic!("unexpected error variant: {e:?}"),
        Ok(_) => panic!("expected error decoding invalid data, got Ok"),
    }
}

fn new_encoder(chunk_size: usize) -> Result<Encoder, Error> {
    let config = EncoderConfig::new()
        .bitrate(BitRate::from_bps(2_500_000))
        .max_frame_rate(FrameRate::from_hz(30.0))
        .usage_type(UsageType::CameraVideoRealTime)
        .intra_frame_period(IntraFramePeriod::from_num_frames(30))
        .complexity(Complexity::Low)
        .rate_control_mode(RateControlMode::Off)
        .skip_frames(true);
    let encoder = H264Encoder::with_api_config(OpenH264API::from_source(), config)
        .map_err(|_| Error::EncoderInitializationError)?;
    Ok(Encoder::with_encoder(encoder, chunk_size))
}

fn grey_4x4() -> YuvImage {
    YuvImage {
        y_plane: vec![128; 16],
        y_stride: 4,
        u_plane: vec![128; 4],
        u_stride: 2,
        v_plane: vec![128; 4],
        v_stride: 2,
        width: 4,
        height: 4,
    }
}

#[test]
fn encoder_new_and_encode_attempt() {
    match new_encoder(1024) {
        Ok(mut enc) => {
            let yuv = grey_4x4();
            let res = enc.encode(&yuv, 12345);
            match res {
                Ok(ef) => {
                    assert_eq!(ef.frame_time, 12345);
                    assert!(!ef.chunks.is_empty(), "Encoded frame should contain at least one chunk");
                }
                Err(e) => match e {
                    Error::EncodingError(_) => {}
                    other => panic!("Unexpected encoding error: {other:?}"),
                },
            }
        }
        Err(e) => {
            assert!(matches!(e, Error::EncoderInitializationError));
        }
    }
}

#[test]
fn new_encoder_respects_chunk_size_config() {
    match new_encoder(1) {
        Ok(mut enc) => {
            let yuv = grey_4x4();
            let res = enc.encode(&yuv, 1);
            match res {
                Ok(ef) => {
                    assert!(!ef.chunks.is_empty());
                    for c in ef.chunks.iter() {
                        assert!(c.len() <= 1);
                    }
                }
                Err(e) => match e {
                    Error::EncodingError(_) => {}
                    other => panic!("Unexpected encoding error: {other:?}"),
                },
            }
        }
        Err(e) => assert!(matches!(e, Error::EncoderInitializationError)),
    }
}

#[test]
fn encoded_frame_decodes_to_its_size() {
    let mut enc = new_encoder(100).expect("encoder");
    let frame = Frame { width: 16, height: 16, data: vec![90u8; 16 * 16 * 3] };
    let yuv = rgb_to_yuv420(&frame).unwrap();
    let encoded = enc.encode(&yuv, 7).expect("encoding succeeds");
    assert!(encoded.chunks.iter().all(|c| !c.is_empty() && c.len() <= 100));
    let data: Vec<u8> = encoded.chunks.concat();
    let mut dec = Decoder::new().unwrap();
    let (rgb, w, h) = dec.decode_frame(&data).expect("decodes");
    assert_eq!((w, h), (16, 16));
    assert_eq!(rgb.len(), 16 * 16 * 3);
}

#[test]
fn chunks_cover_the_bitstream() {
    let data: Vec<u8> = (0u8..10).collect();
    let chunks = generate_chunks_from_bitstream(&data, 4);
    assert_eq!(chunks, vec![vec![0, 1, 2, 3], vec![4, 5, 6, 7], vec![8, 9]]);
    assert!(generate_chunks_from_bitstream(&[], 4).is_empty());
    assert_eq!(generate_chunks_from_bitstream(&data, 10), vec![data.clone()]);
}

#[test]
fn send_encoded_frame_marks_last_chunk() {
    let frame = EncodedFrame {
        chunks: vec![vec![1, 2], vec![3], vec![4, 5, 6]],
        width: 4,
        height: 4,
        is_i_frame: true,
        frame_time: 99,
    };
    let config = VideoStreamConfig { rtp_version: 2, video_payload_type: 96, frame_ssrc: 7 };
    let mut seq = u64::MAX - 1;
    let packets = send_encoded_frame(&frame, true, &mut seq, &config).unwrap();
    assert_eq!(packets.len(), 3);
    assert_eq!(packets.iter().map(|p| p.marker).collect::<Vec<_>>(), vec![0, 0, 1]);
    assert_eq!(
        packets.iter().map(|p| p.sequence_number).collect::<Vec<_>>(),
        vec![u64::MAX - 1, u64::MAX, u64::MAX]
    );
    assert!(packets.iter().all(|p| p.total_chunks == 3 && p.is_i_frame && p.timestamp == 99 && p.ssrc == 7 && p.payload_type == 96 && p.version == 2));
    assert_eq!(packets[2].payload, vec![4, 5, 6]);
    assert_eq!(seq, u64::MAX);

    let mut seq2 = 5;
    match send_encoded_frame(&frame, false, &mut seq2, &config) {
        Err(MediaPipelineError::SendError(m)) => assert_eq!(m, "Media pipeline turned off"),
        _ => panic!("expected SendError"),
    }
    assert_eq!(seq2, 5);
}

#[test]
fn media_error_messages() {
    assert_eq!(MediaPipelineError::SendError("x".into()).to_string(), "Error: \"Send failed\": x");
    assert_eq!(MediaPipelineError::MapError("plain".into()).to_string(), "plain");
    assert_eq!(AudioError::EncodingError("e".into()).to_string(), "Error: failed to encode microphone file (e)");
    assert_eq!(CameraError::OpenError("cam".into()).to_string(), "Error: \"Failed to open camera\": cam");
    assert_eq!(CameraError::IndexError.to_string(), "Error: \"Device index is too large\"");
}

#[test]
fn audio_frame_goes_out_as_one_marked_packet() {
    let config = AudioStreamConfig { rtp_version: 2, audio_payload_type: 97, audio_ssrc: 77 };
    let mut seq: u64 = 41;
    let p = audio_packet(vec![1, 2, 3], 123_456, &mut seq, &config);
    assert_eq!(p.version, 2);
    assert_eq!(p.marker, 1);
    assert_eq!(p.total_chunks, 1);
    assert!(!p.is_i_frame);
    assert_eq!(p.payload_type, 97);
    assert_eq!(p.sequence_number, 41);
    assert_eq!(p.timestamp, 123_456);
    assert_eq!(p.ssrc, 77);
    assert_eq!(p.payload, vec![1, 2, 3]);
    assert_eq!(seq, 42);
}

#[test]
fn audio_sequence_number_saturates() {
    let config = AudioStreamConfig { rtp_version: 2, audio_payload_type: 97, audio_ssrc: 1 };
    let mut seq: u64 = u64::MAX;
    let p = audio_packet(Vec::new(), 0, &mut seq, &config);
    assert_eq!(p.sequence_number, u64::MAX);
    assert_eq!(seq, u64::MAX);
}

#[test]
fn received_packets_are_routed_by_payload_type() {
    assert_eq!(route_packet(96, 96, 97), PacketRoute::Video);
    assert_eq!(route_packet(97, 96, 97), PacketRoute::Audio);
    assert_eq!(route_packet(100, 96, 97), PacketRoute::Discard);
    assert_eq!(route_packet(96, 96, 96), PacketRoute::Video);
}

#[test]
fn decoder_outcomes_become_frames() {
    assert!(matches!(frame_of_decoded(Err("bad".to_string())), Err(Error::DecodingError(m)) if m == "bad"));
    assert!(matches!(frame_of_decoded(Ok(None)), Err(Error::EmptyFrameError)));
    let mut wide = grey_4x4();
    wide.height = 2;
    wide.y_plane = vec![128; 8];
    wide.u_plane = vec![128; 2];
    wide.v_plane = vec![128; 2];
    match frame_of_decoded(Ok(Some(wide))) {
        Ok((rgb, w, h)) => {
            assert_eq!((w, h), (4, 2));
            assert_eq!(rgb.len(), 24);
        }
        other => panic!("expected a frame, got {:?}", other.err()),
    }
    let mut short = grey_4x4();
    short.y_plane.truncate(10);
    assert!(matches!(frame_of_decoded(Ok(Some(short))), Err(Error::DecodingError(_))));
}

#[test]
fn rgb_frame_in_order_always_converts() {
    let frame = Frame { data: vec![10; 3 * 6 * 3], width: 6, height: 3 };
    let img = rgb_to_yuv420(&frame).expect("a frame in order converts");
    assert_eq!((img.width, img.height, img.y_stride, img.u_stride), (6, 3, 6, 3));
    assert_eq!(img.u_plane.len(), 3 * 2);
    let back = yuv420_to_rgb(&img).expect("sizes fit").expect("a picture in order converts");
    assert_eq!(back.len(), 3 * 6 * 3);
}
