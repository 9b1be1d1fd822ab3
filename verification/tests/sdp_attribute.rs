use room_rtc::ice::{Candidate, CandidateType};
use room_rtc::sdp::attribute::{Attribute, DtlsSetupRole, Fingerprint};
use room_rtc::sdp::error::SdpError as Error;

#[test]
fn test_rtpmap_from_str_valid_basic() -> Result<(), Error> {
    let line = "rtpmap:96 opus/48000/2";
    let attr = Attribute::from_str(line)?;

    match attr {
        Attribute::RTPMap(fmt, enc, rate, params) => {
            assert_eq!(fmt, 96);
            assert_eq!(enc, "opus");
            assert_eq!(rate, 48000);
            assert_eq!(params, Some("2".to_string()));
        }
        _ => panic!("Expected Attribute::RTPMap"),
    }
    Ok(())
}

#[test]
fn test_rtpmap_from_str_valid_no_params() -> Result<(), Error> {
    let line = "rtpmap:97 PCMU/8000";
    let attr = Attribute::from_str(line)?;

    match attr {
        Attribute::RTPMap(fmt, enc, rate, params) => {
            assert_eq!(fmt, 97);
            assert_eq!(enc, "PCMU");
            assert_eq!(rate, 8000);
            assert!(params.is_none());
        }
        _ => panic!("Expected Attribute::RTPMap"),
    }
    Ok(())
}

#[test]
fn test_rtpmap_from_str_invalid_format() {
    let line = "rtpmap:";
    let attr = Attribute::from_str(line);

    assert!(matches!(attr, Err(Error::InvalidRtpMapFormatError)));
}

#[test]
fn test_rtpmap_from_str_missing_encoding() {
    let line = "rtpmap:96 /48000/2";
    let attr = Attribute::from_str(line);

    assert!(matches!(attr, Err(Error::MissingEncodingNameError)));
}

#[test]
fn test_rtpmap_from_str_missing_clock_rate() {
    let line = "rtpmap:96 opus";
    let attr = Attribute::from_str(line);

    assert!(matches!(attr, Err(Error::MissingClockRateError)));
}

#[test]
fn test_invalid_rtpmap_extra_fields() {
    let line = "rtpmap:96 opus/48000/2/extra";
    let result = Attribute::from_str(line);

    assert!(matches!(result, Err(Error::ExtraRtpFieldsError)));
}

#[test]
fn test_display_rtpmap() {
    let attr = Attribute::RTPMap(96, "opus".into(), 48000, Some("2".into()));
    assert_eq!(attr.to_string(), "a=rtpmap:96 opus/48000/2");

    let attr_no_params = Attribute::RTPMap(97, "PCMU".into(), 8000, None);
    assert_eq!(attr_no_params.to_string(), "a=rtpmap:97 PCMU/8000");
}

#[test]
fn test_candidate_from_str_valid() -> Result<(), Error> {
    let line = "candidate:1 1 udp 2122252543 192.168.1.5 54400 typ host";
    let attr = Attribute::from_str(line)?;

    match attr {
        Attribute::Candidate(cand) => {
            assert_eq!(cand.foundation, "1");
            assert_eq!(cand.component_id, 1);
            assert_eq!(cand.transport, "udp");
            assert_eq!(cand.priority, 2_122_252_543);
            assert_eq!(cand.address, "192.168.1.5");
            assert_eq!(cand.port, 54400);
            assert!(matches!(cand.candidate_type, CandidateType::Host));
        }
        _ => panic!("Expected Attribute::Candidate"),
    }
    Ok(())
}

#[test]
fn test_candidate_from_str_invalid_format() {
    let bad_lines = [
        "candidate:1 1 udp 2122252543 192.168.1.5 typ host",
        "candidate:1 1 udp 2122252543 192.168.1.5 54400",
        "candidate:1 1 udp x 192.168.1.5 54400 typ host",
        "candidate:1 1 udp 2122252543 192.168.1.5 x typ host",
    ];

    for line in bad_lines {
        assert!(Attribute::from_str(line).is_err(), "Should fail: {line}");
    }
}

#[test]
fn test_candidate_from_str_invalid_format_missing_fields() {
    let candidate = "candidate:1 1 udp 2122252543 192.168.1.5 typ host";
    let attr = Attribute::from_str(candidate);

    assert!(matches!(attr, Err(Error::InvalidLineFormatError)));
}

#[test]
fn test_candidate_from_str_invalid_format_missing_typ() {
    let candidate = "candidate:1 1 udp 2122252543 192.168.1.5 54400 host typ";
    let attr = Attribute::from_str(candidate);

    assert!(matches!(attr, Err(Error::InvalidCandidateFormatError)));
}

#[test]
fn test_candidate_from_str_invalid_candidate_type() {
    let candidate = "candidate:1 1 udp 2122252543 192.168.1.5 54400 typ Guest";
    let attr = Attribute::from_str(candidate);

    assert!(matches!(attr, Err(Error::InvalidCandidateTypeError)));
}

#[test]
fn test_candidate_from_str_invalid_priority() {
    let candidate = "candidate:1 1 udp priority 192.168.1.5 54400 typ host";
    let attr = Attribute::from_str(candidate);

    assert!(matches!(attr, Err(Error::InvalidPriorityError)));
}

#[test]
fn test_candidate_from_str_invalid_port() {
    let candidate = "candidate:1 1 udp 2122252543 192.168.1.5 port typ host";
    let attr = Attribute::from_str(candidate);

    assert!(matches!(attr, Err(Error::InvalidPortError)));
}

#[test]
fn test_candidate_from_str_invalid_component_id() {
    let candidate = "candidate:1 id udp 2122252543 192.168.1.5 54400 typ host";
    let attr = Attribute::from_str(candidate);
    assert!(matches!(attr, Err(Error::InvalidComponentIdError)));
}

#[test]
fn test_display_candidate() {
    let candidate = Candidate::new(
        CandidateType::Host,
        2_122_252_543,
        "192.168.1.5".into(),
        54400,
        1,
        "1".into(),
        "udp".into(),
    );

    let attr = Attribute::Candidate(candidate);
    let expected = "a=candidate:1 1 udp 2122252543 192.168.1.5 54400 typ host";
    assert_eq!(attr.to_string(), expected);
}

#[test]
fn test_fingerprint_attribute_roundtrip() -> Result<(), Error> {
    let line = "fingerprint:sha-256 AA:BB:CC:DD";
    let attr = Attribute::from_str(line)?;

    match attr {
        Attribute::Fingerprint(fp) => {
            assert_eq!(fp.algorithm(), "sha-256");
            assert_eq!(fp.hex_value(), "AA:BB:CC:DD");
        }
        _ => panic!("Expected fingerprint attribute"),
    }

    let fp = Fingerprint::from_hash_string("sha-1", "01:02")?;
    assert_eq!(Attribute::Fingerprint(fp).to_string(), "a=fingerprint:sha-1 01:02");
    Ok(())
}

#[test]
fn test_setup_attribute_roundtrip() -> Result<(), Error> {
    let line = "setup:active";
    let attr = Attribute::from_str(line)?;
    assert!(matches!(attr, Attribute::Setup(DtlsSetupRole::Active)));
    assert_eq!(Attribute::Setup(DtlsSetupRole::Passive).to_string(), "a=setup:passive");
    Ok(())
}

#[test]
fn test_invalid_fingerprint_format() {
    let line = "fingerprint:sha-256 invalid";
    let attr = Attribute::from_str(line);
    assert!(matches!(attr, Err(Error::InvalidFingerprintFormatError)));
}

#[test]
fn attribute_text_reparses_to_the_same_attribute() {
    let lines = [
        "rtpmap:96 opus/48000/2",
        "rtpmap:97 PCMU/8000",
        "candidate:1 1 udp 2122252543 192.168.1.5 54400 typ host",
        "candidate:7 2 tcp 5 10.0.0.1 9 typ srflx",
        "fingerprint:sha-256 AA:BB:CC:DD",
        "setup:actpass",
        "setup:holdconn",
    ];
    for line in lines {
        let attr = Attribute::from_str(line).expect("valid attribute");
        let text = attr.to_string();
        let reparsed = Attribute::from_str(&text[2..]).expect("rendered text parses");
        assert_eq!(reparsed.to_string(), text);
    }
}

#[test]
fn fingerprint_from_bytes_renders_uppercase_hex() {
    let fp = Fingerprint::from_bytes("sha-256", &[0x0a, 0xff, 0x00]);
    assert_eq!(fp.hex_value(), "0A:FF:00");
    assert_eq!(fp.bytes(), &[0x0a, 0xff, 0x00]);
    assert_eq!(fp.algorithm(), "sha-256");
}

#[test]
fn fingerprint_missing_value_and_setup_role_errors() {
    assert!(matches!(
        Fingerprint::from_hash_string("sha-256", "  "),
        Err(Error::MissingFingerprintValueError)
    ));
    assert!(matches!(Attribute::from_str("setup:sideways"), Err(Error::InvalidSetupRoleError)));
    assert!(matches!(Attribute::from_str("bogus:1"), Err(Error::InvalidAttributeFormatError)));
}

#[test]
fn setup_role_is_read_without_regard_to_case() {
    assert!(matches!(Attribute::from_str("setup:PASSIVE"), Ok(Attribute::Setup(DtlsSetupRole::Passive))));
}
