use room_rtc::config::SdpConfig;
use room_rtc::ice::{Candidate, CandidateType};
use room_rtc::sdp::attribute::{Attribute, DtlsSetupRole, Fingerprint};
use room_rtc::sdp::error::SdpError as Error;
use room_rtc::sdp::media_description::MediaDescription;
use room_rtc::sdp::session_description::SessionDescriptionProtocol;
use std::collections::HashSet;

fn make_test_sdp_config() -> SdpConfig {
    SdpConfig {
        version: 0,
        origin_id: 0,
        session_name: "-".to_string(),
        timing: "0 0".to_string(),
        connection_data_net_type: "IN".to_string(),
        connection_data_addr_type: "IP4".to_string(),
        connection_data_address: "0.0.0.0".to_string(),
    }
}

fn make_test_media_description() -> Result<MediaDescription, Error> {
    let mut fmts = HashSet::new();
    fmts.insert(96);

    let mut md = MediaDescription::new("audio".into(), 5004, "RTP/AVP".into(), fmts);
    md.add_attribute(Attribute::RTPMap(96, "opus".into(), 48000, Some("2".into())))?;
    Ok(md)
}

#[test]
fn test_from_str_generates_valid_session_description() -> Result<(), Error> {
    let sdp_line = "\
            v=0
            o=0
            s=-
            t=0 0
            c=IN IP4 127.0.0.1
            m=audio 5004 RTP/AVP 96
            a=rtpmap:96 opus/48000/2";

    let sdp = SessionDescriptionProtocol::from_str(sdp_line)?;
    assert_eq!(sdp.version, 0);
    assert_eq!(sdp.origin_id, 0);
    assert_eq!(sdp.session_name, "-");
    assert_eq!(sdp.timing, "0 0");
    assert_eq!(sdp.connection_data, "IN IP4 0.0.0.0");
    assert_eq!(sdp.media_descriptions.len(), 1);

    let md = sdp.media_descriptions.first().ok_or(Error::MissingMediaDescriptionError)?;
    assert_eq!(md.media_type, "audio");
    assert_eq!(md.protocol, "RTP/AVP");
    assert_eq!(md.port, 5004);
    assert!(md.attributes.iter().any(|a| matches!(a, Attribute::RTPMap(_, _, _, _))));
    Ok(())
}

#[test]
fn test_from_str_with_invalid_sdp_line() {
    let sdp_line = "\
            v=0
            o=0
            s=-
            t=0 0
            c IN IP4 127.0.0.1
            m=audio 5004 RTP/AVP 96
            a=rtpmap:96 opus/48000/2";

    let sdp = SessionDescriptionProtocol::from_str(sdp_line);
    assert!(sdp.is_err());
    if let Err(err) = sdp {
        assert!(matches!(err, Error::InvalidMediaDescriptionFormatError));
    } else {
        panic!("Expected InvalidMediaDescriptionFormatError");
    }
}

#[test]
fn test_display_formats_sdp_correctly() -> Result<(), Error> {
    let md = make_test_media_description()?;
    let sdp = SessionDescriptionProtocol::new(vec![md], &make_test_sdp_config());

    let out = sdp.to_string();
    assert!(out.contains("v=0"));
    assert!(out.contains("m=audio"));
    assert!(out.contains("a=rtpmap:96 opus/48000/2"));
    Ok(())
}

#[test]
fn test_set_connection_data_updates_value() -> Result<(), Error> {
    let md = make_test_media_description()?;
    let mut sdp = SessionDescriptionProtocol::new(vec![md], &make_test_sdp_config());

    assert_eq!(sdp.connection_data, "IN IP4 0.0.0.0");

    sdp.set_connection_data("IN", "IP4", "127.0.0.1");
    assert_eq!(sdp.connection_data, "IN IP4 127.0.0.1");
    Ok(())
}

#[test]
fn test_set_connection_data_changes_value() {
    let mut sdp = SessionDescriptionProtocol::new(vec![], &make_test_sdp_config());
    sdp.set_connection_data("IN", "IP4", "192.168.0.5");

    assert_eq!(sdp.connection_data, "IN IP4 192.168.0.5");
}

#[test]
fn test_create_answer_filters_incompatible_formats() -> Result<(), Error> {
    let local_md = make_test_media_description()?;
    let local_sdp = SessionDescriptionProtocol::new(vec![local_md], &make_test_sdp_config());

    let mut remote_fmts = HashSet::new();
    remote_fmts.insert(97);
    let mut remote_md = MediaDescription::new("audio".into(), 6000, "RTP/AVP".into(), remote_fmts);
    remote_md
        .add_attribute(Attribute::RTPMap(97, "vp8".into(), 90000, Some("1".into())))?;

    let remote_sdp = SessionDescriptionProtocol::new(vec![remote_md], &make_test_sdp_config());

    let answer = local_sdp.create_answer(&remote_sdp)?;
    assert_eq!(answer.media_descriptions.len(), 1);

    let answer_md = &answer.media_descriptions[0];
    assert!(answer_md.fmts.is_empty());
    Ok(())
}

#[test]
fn test_create_answer_preserves_compatible_formats() -> Result<(), Error> {
    let local_md = make_test_media_description()?;
    let local_sdp = SessionDescriptionProtocol::new(vec![local_md], &make_test_sdp_config());

    let mut offer_md =
        MediaDescription::new("audio".into(), 6000, "RTP/AVP".into(), HashSet::from([96]));
    offer_md
        .add_attribute(Attribute::RTPMap(96, "opus".into(), 48000, Some("2".into())))?;

    let offer_sdp = SessionDescriptionProtocol::new(vec![offer_md], &make_test_sdp_config());

    let answer = local_sdp.create_answer(&offer_sdp)?;
    assert_eq!(answer.media_descriptions.len(), 1);

    let answer_md = &answer.media_descriptions[0];
    assert!(answer_md.fmts.contains(&96));
    assert!(answer_md.attributes.iter().any(|a| matches!(a, Attribute::RTPMap(_, _, _, _))));
    Ok(())
}

#[test]
fn session_description_text_parses_back() -> Result<(), Error> {
    let md = make_test_media_description()?;
    let sdp = SessionDescriptionProtocol::new(vec![md], &make_test_sdp_config());
    let text = sdp.to_string();
    let parsed = SessionDescriptionProtocol::from_str(&text)?;
    assert_eq!(parsed.to_string(), text);
    Ok(())
}

#[test]
fn add_attribute_rejects_unlisted_format() {
    let mut md = MediaDescription::new("audio".into(), 5004, "RTP/AVP".into(), HashSet::from([96]));
    assert!(md.add_attribute(Attribute::RTPMap(97, "PCMU".into(), 8000, None)).is_err());
    assert!(md.attributes.is_empty());
}

#[test]
fn attribute_without_media_section_is_refused() {
    let text = "v=0\no=0\ns=-\nt=0 0\nc=IN IP4 0.0.0.0\na=rtpmap:96 opus/48000/2";
    assert!(matches!(
        SessionDescriptionProtocol::from_str(text),
        Err(Error::MissingMediaDescriptionError)
    ));
}

#[test]
fn rendered_description_reads_back_as_the_same_sections() -> Result<(), Error> {
    let mut audio_fmts = HashSet::new();
    audio_fmts.insert(97);
    let mut audio = MediaDescription::new("audio".into(), 5006, "RTP/AVP".into(), audio_fmts);
    audio.add_attribute(Attribute::RTPMap(97, "opus".into(), 48000, Some("2".into())))?;
    audio.add_attribute(Attribute::Candidate(Candidate::new(
        CandidateType::Host,
        2130706431,
        "192.168.0.7".into(),
        40000,
        1,
        "1".into(),
        "udp".into(),
    )))?;
    let mut video_fmts = HashSet::new();
    video_fmts.insert(96);
    video_fmts.insert(3);
    let mut video = MediaDescription::new("video".into(), 9, "UDP/TLS/RTP/SAVPF".into(), video_fmts);
    video.add_attribute(Attribute::RTPMap(96, "H264".into(), 90000, None))?;
    video.add_attribute(Attribute::Fingerprint(Fingerprint::from_bytes("sha-256", &[0xAB, 0x01, 0xFF])))?;
    video.add_attribute(Attribute::Setup(DtlsSetupRole::ActPass))?;
    let sdp = SessionDescriptionProtocol::new(vec![audio, video], &make_test_sdp_config());

    let text = sdp.to_string();
    let back = SessionDescriptionProtocol::from_str(&text)?;

    assert_eq!(back.media_descriptions.len(), sdp.media_descriptions.len());
    for (sent, read) in sdp.media_descriptions.iter().zip(back.media_descriptions.iter()) {
        assert_eq!(read.media_type, sent.media_type);
        assert_eq!(read.port, sent.port);
        assert_eq!(read.protocol, sent.protocol);
        assert_eq!(read.fmts, sent.fmts);
        assert_eq!(read.attributes.len(), sent.attributes.len());
        for (a, b) in sent.attributes.iter().zip(read.attributes.iter()) {
            assert_eq!(a.to_string(), b.to_string());
        }
    }
    assert_eq!(back.to_string(), text);
    Ok(())
}

#[test]
fn section_without_formats_does_not_read_back() {
    let md = MediaDescription::new("audio".into(), 5004, "RTP/AVP".into(), HashSet::new());
    let sdp = SessionDescriptionProtocol::new(vec![md], &make_test_sdp_config());
    let back = SessionDescriptionProtocol::from_str(&sdp.to_string());
    assert!(matches!(back, Err(Error::InvalidMediaDescriptionFormatError)));
}
