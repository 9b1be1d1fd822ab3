use room_rtc::sctp_transport::data_channel::dc_type::DataChannelType;
use std::convert::TryFrom;

#[test]
fn test_conversion_from_u8_valid() {
    let val = 0x00;
    let result = DataChannelType::try_from(val);
    assert!(result.is_ok());
    assert_eq!(result.unwrap(), DataChannelType::Reliable);
}

#[test]
fn test_conversion_from_u8_invalid() {
    let val = 0x01;
    let result = DataChannelType::try_from(val);
    assert!(result.is_err());
}

#[test]
fn test_to_u8() {
    let dc_type = DataChannelType::Reliable;
    assert_eq!(dc_type.to_u8(), 0x00);
}

#[test]
fn test_ordered_flag() {
    let dc_type = DataChannelType::Reliable;
    assert!(dc_type.ordered());
}

#[test]
fn dc_type_from_u8_roundtrip() {
    for v in 0u8..=255 {
        match DataChannelType::from_u8(v) {
            Some(t) => {
                assert_eq!(v, 0);
                assert_eq!(t.to_u8(), v);
            }
            None => assert_ne!(v, 0),
        }
    }
}
