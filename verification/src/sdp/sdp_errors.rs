use vstd::prelude::*;

verus! {

/// Parsing errors of the plain-text SDP handling.
#[derive(Eq, PartialEq, Debug, Clone, Copy, Structural)]
pub enum SdpErrors {
    InvalidPriorityError,
    InvalidPortError,
    InvalidComponentIdError,
    InvalidLineFormatError,
    InvalidCandidateFormatError,
    InvalidAttributeFormatError,
    InvalidCandidateTypeError,
    InvalidRtpMapFormatError,
    MissingEncodingNameError,
    MissingClockRateError,
    InvalidClockRateParsingError,
    ExtraRtpFieldsError,
    InvalidCandidateParsingError,
    MissingMediaDescriptionError,
    InvalidMediaDescriptionFormatError,
    InvalidMediaDescriptionAttributeFormat,
    InvalidFmtError,
}

impl SdpErrors {
    /// The human-readable message of this error.
    pub open spec fn message(&self) -> Seq<char> {
        match self {
            SdpErrors::InvalidPriorityError => "Error: \"Invalid priority\""@,
            SdpErrors::InvalidPortError => "Error: \"Invalid port number\""@,
            SdpErrors::InvalidComponentIdError => "Error: \"Invalid component id\""@,
            SdpErrors::InvalidLineFormatError => "Error: \"Invalid line format\""@,
            SdpErrors::InvalidCandidateFormatError => "Error: \"Invalid candidate format\""@,
            SdpErrors::InvalidAttributeFormatError => "Error: \"Invalid attribute format\""@,
            SdpErrors::InvalidCandidateTypeError => "Error: \"Invalid candidate type\""@,
            SdpErrors::InvalidRtpMapFormatError => "Error: \"Invalid RTP map format\""@,
            SdpErrors::MissingEncodingNameError => "Error: \"Missing encoding name\""@,
            SdpErrors::MissingClockRateError => "Error: \"Missing clock rate\""@,
            SdpErrors::InvalidClockRateParsingError => "Error: \"Invalid clock rate parsing error\""@,
            SdpErrors::ExtraRtpFieldsError => "Error: \"Extra RTP fields\""@,
            SdpErrors::InvalidCandidateParsingError => "Error: \"Invalid Candidate parsing error\""@,
            SdpErrors::MissingMediaDescriptionError => "Error: \"Missing media description\""@,
            SdpErrors::InvalidMediaDescriptionFormatError => "Error: \"Invalid media description\""@,
            SdpErrors::InvalidMediaDescriptionAttributeFormat => "Error: \"Invalid media description attribute format\""@,
            SdpErrors::InvalidFmtError => "Error: \"Invalid fmt error\""@,
        }
    }

    /// Formats the error as a short human-readable message.
    pub fn to_string(&self) -> (r: String)
        ensures
            r@ == self.message(),
    {
        match self {
            SdpErrors::InvalidPriorityError => String::from_str("Error: \"Invalid priority\""),
            SdpErrors::InvalidPortError => String::from_str("Error: \"Invalid port number\""),
            SdpErrors::InvalidComponentIdError => String::from_str("Error: \"Invalid component id\""),
            SdpErrors::InvalidLineFormatError => String::from_str("Error: \"Invalid line format\""),
            SdpErrors::InvalidCandidateFormatError => String::from_str("Error: \"Invalid candidate format\""),
            SdpErrors::InvalidAttributeFormatError => String::from_str("Error: \"Invalid attribute format\""),
            SdpErrors::InvalidCandidateTypeError => String::from_str("Error: \"Invalid candidate type\""),
            SdpErrors::InvalidRtpMapFormatError => String::from_str("Error: \"Invalid RTP map format\""),
            SdpErrors::MissingEncodingNameError => String::from_str("Error: \"Missing encoding name\""),
            SdpErrors::MissingClockRateError => String::from_str("Error: \"Missing clock rate\""),
            SdpErrors::InvalidClockRateParsingError => String::from_str("Error: \"Invalid clock rate parsing error\""),
            SdpErrors::ExtraRtpFieldsError => String::from_str("Error: \"Extra RTP fields\""),
            SdpErrors::InvalidCandidateParsingError => String::from_str("Error: \"Invalid Candidate parsing error\""),
            SdpErrors::MissingMediaDescriptionError => String::from_str("Error: \"Missing media description\""),
            SdpErrors::InvalidMediaDescriptionFormatError => String::from_str("Error: \"Invalid media description\""),
            SdpErrors::InvalidMediaDescriptionAttributeFormat => String::from_str("Error: \"Invalid media description attribute format\""),
            SdpErrors::InvalidFmtError => String::from_str("Error: \"Invalid fmt error\""),
        }
    }
}

} // verus!
