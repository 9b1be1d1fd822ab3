use vstd::prelude::*;

verus! {

/// Errors returned by the SDP parsing utilities.
///
/// This enum lists the different parsing and validation errors that the
/// SDP module may produce while parsing attributes and media
/// descriptions.
#[derive(Eq, PartialEq, Debug, Clone, Copy, Structural)]
pub enum SdpError {
    /// Priority value could not be parsed or was invalid.
    InvalidPriorityError,
    /// Port value could not be parsed or is invalid.
    InvalidPortError,
    /// Component id could not be parsed or is invalid.
    InvalidComponentIdError,
    /// A general line format is not as expected.
    InvalidLineFormatError,
    /// The `candidate` line does not follow the expected token layout.
    InvalidCandidateFormatError,
    /// Generic attribute formatting error.
    InvalidAttributeFormatError,
    /// The candidate type token is unknown or cannot be parsed.
    InvalidCandidateTypeError,
    /// The `rtpmap` attribute has an invalid format.
    InvalidRtpMapFormatError,
    /// The `rtpmap` attribute is missing the encoding name.
    MissingEncodingNameError,
    /// The `rtpmap` attribute is missing the clock rate.
    MissingClockRateError,
    /// Failed to parse the clock rate value.
    InvalidClockRateParsingError,
    /// Too many fields in the `rtpmap` attribute (more than 3 parts).
    ExtraRtpFieldsError,
    /// Generic candidate parsing failure.
    InvalidCandidateParsingError,
    /// Media description was expected but not found.
    MissingMediaDescriptionError,
    /// Media description line has an invalid format.
    InvalidMediaDescriptionFormatError,
    /// Media description contains attributes with invalid format.
    InvalidMediaDescriptionAttributeFormat,
    /// Payload fmt token is invalid.
    InvalidFmtError,
    /// The attribute format does not match the media description's format.
    UnmatchingMediaDescriptionAndAttributeError,
    /// The `setup` attribute names no known DTLS role.
    InvalidSetupRoleError,
    /// The `fingerprint` attribute has no hash value.
    MissingFingerprintValueError,
    /// The fingerprint hash is not colon-separated hexadecimal bytes.
    InvalidFingerprintFormatError,
}

impl SdpError {
    /// The human-readable message of this error.
    pub open spec fn message(&self) -> Seq<char> {
        match self {
            SdpError::InvalidPriorityError => "Error: \"Invalid priority\""@,
            SdpError::InvalidPortError => "Error: \"Invalid port number\""@,
            SdpError::InvalidComponentIdError => "Error: \"Invalid component id\""@,
            SdpError::InvalidLineFormatError => "Error: \"Invalid line format\""@,
            SdpError::InvalidCandidateFormatError => "Error: \"Invalid candidate format\""@,
            SdpError::InvalidAttributeFormatError => "Error: \"Invalid attribute format\""@,
            SdpError::InvalidCandidateTypeError => "Error: \"Invalid candidate type\""@,
            SdpError::InvalidRtpMapFormatError => "Error: \"Invalid RTP map format\""@,
            SdpError::MissingEncodingNameError => "Error: \"Missing encoding name\""@,
            SdpError::MissingClockRateError => "Error: \"Missing clock rate\""@,
            SdpError::InvalidClockRateParsingError => "Error: \"Invalid clock rate parsing error\""@,
            SdpError::ExtraRtpFieldsError => "Error: \"Extra RTP fields\""@,
            SdpError::InvalidCandidateParsingError => "Error: \"Invalid Candidate parsing error\""@,
            SdpError::MissingMediaDescriptionError => "Error: \"Missing media description\""@,
            SdpError::InvalidMediaDescriptionFormatError => "Error: \"Invalid media description\""@,
            SdpError::InvalidMediaDescriptionAttributeFormat => "Error: \"Invalid media description attribute format\""@,
            SdpError::InvalidFmtError => "Error: \"Invalid fmt error\""@,
            SdpError::UnmatchingMediaDescriptionAndAttributeError => "Error: \"Unmatching media description and attribute\""@,
            SdpError::InvalidSetupRoleError => "Error: \"Invalid setup role\""@,
            SdpError::MissingFingerprintValueError => "Error: \"Missing fingerprint value\""@,
            SdpError::InvalidFingerprintFormatError => "Error: \"Invalid fingerprint format\""@,
        }
    }

    /// Formats the error as a short human-readable message.
    pub fn to_string(&self) -> (r: String)
        ensures
            r@ == self.message(),
    {
        match self {
            SdpError::InvalidPriorityError => String::from_str("Error: \"Invalid priority\""),
            SdpError::InvalidPortError => String::from_str("Error: \"Invalid port number\""),
            SdpError::InvalidComponentIdError => String::from_str("Error: \"Invalid component id\""),
            SdpError::InvalidLineFormatError => String::from_str("Error: \"Invalid line format\""),
            SdpError::InvalidCandidateFormatError => String::from_str("Error: \"Invalid candidate format\""),
            SdpError::InvalidAttributeFormatError => String::from_str("Error: \"Invalid attribute format\""),
            SdpError::InvalidCandidateTypeError => String::from_str("Error: \"Invalid candidate type\""),
            SdpError::InvalidRtpMapFormatError => String::from_str("Error: \"Invalid RTP map format\""),
            SdpError::MissingEncodingNameError => String::from_str("Error: \"Missing encoding name\""),
            SdpError::MissingClockRateError => String::from_str("Error: \"Missing clock rate\""),
            SdpError::InvalidClockRateParsingError => String::from_str("Error: \"Invalid clock rate parsing error\""),
            SdpError::ExtraRtpFieldsError => String::from_str("Error: \"Extra RTP fields\""),
            SdpError::InvalidCandidateParsingError => String::from_str("Error: \"Invalid Candidate parsing error\""),
            SdpError::MissingMediaDescriptionError => String::from_str("Error: \"Missing media description\""),
            SdpError::InvalidMediaDescriptionFormatError => String::from_str("Error: \"Invalid media description\""),
            SdpError::InvalidMediaDescriptionAttributeFormat => String::from_str("Error: \"Invalid media description attribute format\""),
            SdpError::InvalidFmtError => String::from_str("Error: \"Invalid fmt error\""),
            SdpError::UnmatchingMediaDescriptionAndAttributeError => String::from_str("Error: \"Unmatching media description and attribute\""),
            SdpError::InvalidSetupRoleError => String::from_str("Error: \"Invalid setup role\""),
            SdpError::MissingFingerprintValueError => String::from_str("Error: \"Missing fingerprint value\""),
            SdpError::InvalidFingerprintFormatError => String::from_str("Error: \"Invalid fingerprint format\""),
        }
    }
}

} // verus!
