use crate::ice::{
    candidate_type_name, candidate_type_of, Candidate, CandidateType, CandidateView,
};
use crate::number::{
    dec, hex2, parse_hex_u8_in, parse_u16_in, parse_u32_in, parse_u8_in, parse_unsigned, push_dec,
    push_hex2,
};
use crate::sdp::error::SdpError;
use crate::text::{
    chars_of, find_in, join, push_char, push_chars, slice_equals, span_chars, spans_chars,
    split_by, split_once, split_spans, split_ws, split_ws_spans, string_of, trim, trim_bounds,
};
use vstd::prelude::*;

verus! {

/// DTLS setup role advertised via the SDP `a=setup` attribute.
#[derive(Clone, Copy, Debug, Eq, PartialEq, Structural)]
pub enum DtlsSetupRole {
    ActPass,
    Active,
    Passive,
    HoldConn,
}

/// The SDP name of a setup role.
pub open spec fn setup_role_name(r: DtlsSetupRole) -> Seq<char> {
    match r {
        DtlsSetupRole::ActPass => "actpass"@,
        DtlsSetupRole::Active => "active"@,
        DtlsSetupRole::Passive => "passive"@,
        DtlsSetupRole::HoldConn => "holdconn"@,
    }
}

/// ASCII upper-case letters turned to lower case, as
/// `str::to_ascii_lowercase` does; every other character is kept.
pub open spec fn ascii_lower(c: char) -> char {
    if 'A' <= c && c <= 'Z' {
        ((c as int) + 32) as char
    } else {
        c
    }
}

/// The text with its ASCII letters in lower case.
pub open spec fn ascii_lowercase(s: Seq<char>) -> Seq<char> {
    Seq::new(s.len(), |i: int| ascii_lower(s[i]))
}

/// The setup role written in `s`: its trimmed, lower-cased text must be one
/// of the four role names.
pub open spec fn parse_setup_role(s: Seq<char>) -> Result<DtlsSetupRole, SdpError> {
    let t = ascii_lowercase(trim(s));
    if t == "actpass"@ {
        Ok(DtlsSetupRole::ActPass)
    } else if t == "active"@ {
        Ok(DtlsSetupRole::Active)
    } else if t == "passive"@ {
        Ok(DtlsSetupRole::Passive)
    } else if t == "holdconn"@ {
        Ok(DtlsSetupRole::HoldConn)
    } else {
        Err(SdpError::InvalidSetupRoleError)
    }
}

fn lower_char(c: char) -> (r: char)
    ensures
        r == ascii_lower(c),
{
    match c {
        'A' => 'a',
        'B' => 'b',
        'C' => 'c',
        'D' => 'd',
        'E' => 'e',
        'F' => 'f',
        'G' => 'g',
        'H' => 'h',
        'I' => 'i',
        'J' => 'j',
        'K' => 'k',
        'L' => 'l',
        'M' => 'm',
        'N' => 'n',
        'O' => 'o',
        'P' => 'p',
        'Q' => 'q',
        'R' => 'r',
        'S' => 's',
        'T' => 't',
        'U' => 'u',
        'V' => 'v',
        'W' => 'w',
        'X' => 'x',
        'Y' => 'y',
        'Z' => 'z',
        _ => c,
    }
}

impl DtlsSetupRole {
    /// The role written in `chars[from..to]` (trimmed, case-insensitive).
    pub fn from_chars(chars: &[char], from: usize, to: usize) -> (r: Result<Self, SdpError>)
        requires
            from <= to <= chars@.len(),
        ensures
            r == parse_setup_role(chars@.subrange(from as int, to as int)),
    {
        let (a, b) = trim_bounds(chars, from, to);
        let mut lower: Vec<char> = Vec::new();
        let mut i = a;
        while i < b
            invariant
                from <= a <= i <= b <= to <= chars@.len(),
                lower@ == ascii_lowercase(chars@.subrange(a as int, i as int)),
            decreases b - i,
        {
            lower.push(lower_char(chars[i]));
            i = i + 1;
            assert(lower@ =~= ascii_lowercase(chars@.subrange(a as int, i as int)));
        }
        let n = lower.len();
        if slice_equals(lower.as_slice(), 0, n, "actpass") {
            assert(lower@.subrange(0, n as int) =~= lower@);
            Ok(DtlsSetupRole::ActPass)
        } else if slice_equals(lower.as_slice(), 0, n, "active") {
            assert(lower@.subrange(0, n as int) =~= lower@);
            Ok(DtlsSetupRole::Active)
        } else if slice_equals(lower.as_slice(), 0, n, "passive") {
            assert(lower@.subrange(0, n as int) =~= lower@);
            Ok(DtlsSetupRole::Passive)
        } else if slice_equals(lower.as_slice(), 0, n, "holdconn") {
            assert(lower@.subrange(0, n as int) =~= lower@);
            Ok(DtlsSetupRole::HoldConn)
        } else {
            assert(lower@.subrange(0, n as int) =~= lower@);
            Err(SdpError::InvalidSetupRoleError)
        }
    }

    /// The SDP name of this role.
    pub fn to_string(&self) -> (r: String)
        ensures
            r@ == setup_role_name(*self),
    {
        match self {
            DtlsSetupRole::ActPass => String::from_str("actpass"),
            DtlsSetupRole::Active => String::from_str("active"),
            DtlsSetupRole::Passive => String::from_str("passive"),
            DtlsSetupRole::HoldConn => String::from_str("holdconn"),
        }
    }
}

impl core::str::FromStr for DtlsSetupRole {
    type Err = SdpError;

    fn from_str(s: &str) -> (r: Result<Self, Self::Err>)
        ensures
            r == parse_setup_role(s@),
    {
        let chars = chars_of(s);
        assert(chars@.subrange(0, chars@.len() as int) =~= s@);
        DtlsSetupRole::from_chars(chars.as_slice(), 0, chars.len())
    }
}

/// Parsed representation of an SDP `a=fingerprint` attribute.
#[derive(Clone, Debug, Eq, PartialEq)]
pub struct Fingerprint {
    pub algorithm: String,
    pub bytes: Vec<u8>,
}

/// The abstract content of a [`Fingerprint`].
pub ghost struct FingerprintView {
    pub algorithm: Seq<char>,
    pub bytes: Seq<u8>,
}

impl View for Fingerprint {
    type V = FingerprintView;

    open spec fn view(&self) -> FingerprintView {
        FingerprintView { algorithm: self.algorithm@, bytes: self.bytes@ }
    }
}

/// The bytes of a colon-separated hexadecimal hash: the trimmed text must
/// not be empty, and each colon-separated piece, trimmed, must be a
/// hexadecimal byte.
pub open spec fn parse_hash(hash: Seq<char>) -> Result<Seq<u8>, SdpError> {
    let t = trim(hash);
    if t.len() == 0 {
        Err(SdpError::MissingFingerprintValueError)
    } else {
        let pieces = split_by(t, ':');
        if forall|i: int|
            0 <= i < pieces.len() ==> parse_unsigned(trim(#[trigger] pieces[i]), 16, 255) is Some {
            Ok(
                Seq::new(
                    pieces.len(),
                    |i: int| parse_unsigned(trim(pieces[i]), 16, 255).unwrap() as u8,
                ),
            )
        } else {
            Err(SdpError::InvalidFingerprintFormatError)
        }
    }
}

/// Upper-case colon-delimited hexadecimal text of the bytes.
pub open spec fn hex_text(bytes: Seq<u8>) -> Seq<char> {
    join(Seq::new(bytes.len(), |i: int| hex2(bytes[i])), ':')
}

/// Parses the hash pieces `spans` of `chars` into bytes.
fn parse_hash_pieces(chars: &[char], spans: &Vec<crate::text::Span>) -> (r: Option<Vec<u8>>)
    requires
        forall|i: int|
            0 <= i < spans@.len() ==> (#[trigger] spans@[i]).start <= spans@[i].end
                <= chars@.len(),
    ensures
        match r {
            Some(b) => (forall|i: int|
                0 <= i < spans@.len() ==> parse_unsigned(
                    trim(#[trigger] spans_chars(chars@, spans@)[i]),
                    16,
                    255,
                ) is Some) && b@ == Seq::new(
                spans@.len(),
                |i: int|
                    parse_unsigned(trim(spans_chars(chars@, spans@)[i]), 16, 255).unwrap() as u8,
            ),
            None => !(forall|i: int|
                0 <= i < spans@.len() ==> parse_unsigned(
                    trim(#[trigger] spans_chars(chars@, spans@)[i]),
                    16,
                    255,
                ) is Some),
        },
{
    let ghost pieces = spans_chars(chars@, spans@);
    let mut out: Vec<u8> = Vec::new();
    let mut i: usize = 0;
    while i < spans.len()
        invariant
            pieces == spans_chars(chars@, spans@),
            i <= spans@.len(),
            forall|k: int|
                0 <= k < spans@.len() ==> (#[trigger] spans@[k]).start <= spans@[k].end
                    <= chars@.len(),
            forall|k: int|
                0 <= k < i ==> parse_unsigned(trim(#[trigger] pieces[k]), 16, 255) is Some,
            out@ == Seq::new(
                i as nat,
                |k: int| parse_unsigned(trim(pieces[k]), 16, 255).unwrap() as u8,
            ),
        decreases spans@.len() - i,
    {
        let sp = &spans[i];
        let (a, b) = trim_bounds(chars, sp.start, sp.end);
        proof {
            assert(pieces[i as int] == chars@.subrange(sp.start as int, sp.end as int));
        }
        match parse_hex_u8_in(chars, a, b) {
            Some(v) => {
                out.push(v);
                i = i + 1;
                proof {
                    assert(out@ =~= Seq::new(
                        i as nat,
                        |k: int| parse_unsigned(trim(pieces[k]), 16, 255).unwrap() as u8,
                    ));
                }
            },
            None => {
                return None;
            },
        }
    }
    Some(out)
}

impl Fingerprint {
    /// Create a fingerprint from the provided raw bytes.
    pub fn from_bytes(algorithm: &str, bytes: &[u8]) -> (r: Self)
        ensures
            r@ == (FingerprintView { algorithm: algorithm@, bytes: bytes@ }),
    {
        Fingerprint { algorithm: String::from_str(algorithm), bytes: vstd::slice::slice_to_vec(bytes) }
    }

    /// Parse a colon-separated fingerprint string.
    pub fn from_hash_string(algorithm: &str, hash: &str) -> (r: Result<Self, SdpError>)
        ensures
            match (r, parse_hash(hash@)) {
                (Ok(f), Ok(b)) => f@ == (FingerprintView { algorithm: algorithm@, bytes: b }),
                (Err(e), Err(e2)) => e == e2,
                _ => false,
            },
    {
        let chars = chars_of(hash);
        assert(chars@.subrange(0, chars@.len() as int) =~= hash@);
        Fingerprint::from_hash_chars(String::from_str(algorithm), chars.as_slice(), 0, chars.len())
    }

    /// Parse the colon-separated fingerprint text `chars[from..to]`.
    pub fn from_hash_chars(algorithm: String, chars: &[char], from: usize, to: usize) -> (r: Result<
        Self,
        SdpError,
    >)
        requires
            from <= to <= chars@.len(),
        ensures
            match (r, parse_hash(chars@.subrange(from as int, to as int))) {
                (Ok(f), Ok(b)) => f@ == (FingerprintView { algorithm: algorithm@, bytes: b }),
                (Err(e), Err(e2)) => e == e2,
                _ => false,
            },
    {
        let (a, b) = trim_bounds(chars, from, to);
        if a == b {
            return Err(SdpError::MissingFingerprintValueError);
        }
        let spans = split_spans(chars, a, b, ':');
        proof {
            assert forall|i: int| 0 <= i < spans@.len() implies (#[trigger] spans@[i]).start
                <= spans@[i].end <= chars@.len() by {}
        }
        match parse_hash_pieces(chars, &spans) {
            Some(bytes) => Ok(Fingerprint { algorithm, bytes }),
            None => Err(SdpError::InvalidFingerprintFormatError),
        }
    }

    /// Return the algorithm string (e.g. `sha-256`).
    pub fn algorithm(&self) -> (r: &str)
        ensures
            r@ == self.algorithm@,
    {
        self.algorithm.as_str()
    }

    /// Return the raw fingerprint bytes.
    pub fn bytes(&self) -> (r: &[u8])
        ensures
            r@ == self.bytes@,
    {
        self.bytes.as_slice()
    }

    /// Render the fingerprint as uppercase colon-delimited hex.
    pub fn hex_value(&self) -> (r: String)
        ensures
            r@ == hex_text(self.bytes@),
    {
        let mut out = String::new();
        let mut i: usize = 0;
        while i < self.bytes.len()
            invariant
                i <= self.bytes@.len(),
                out@ == hex_text(self.bytes@.subrange(0, i as int)),
            decreases self.bytes@.len() - i,
        {
            let ghost before = out@;
            if i > 0 {
                push_char(&mut out, ':');
            }
            push_hex2(&mut out, self.bytes[i]);
            i = i + 1;
            proof {
                let pre = Seq::new(
                    (i - 1) as nat,
                    |k: int| hex2(self.bytes@.subrange(0, i - 1)[k]),
                );
                let cur = Seq::new(i as nat, |k: int| hex2(self.bytes@.subrange(0, i as int)[k]));
                assert(cur.drop_last() =~= pre);
                if i == 1 {
                    assert(pre =~= Seq::<Seq<char>>::empty());
                    assert(before =~= Seq::<char>::empty());
                    assert(out@ =~= cur[0]);
                } else {
                    assert(out@ =~= join(pre, ':').push(':') + cur.last());
                }
            }
        }
        assert(self.bytes@.subrange(0, self.bytes@.len() as int) =~= self.bytes@);
        out
    }
}

/// SDP attribute representation used by this module.
#[derive(Clone)]
pub enum Attribute {
    /// An ICE candidate attribute containing a full `Candidate`.
    Candidate(Candidate),
    /// (rtp_payload_type, rtp_codec_name, rtp_clock_rate, rtp_encoding_params)
    RTPMap(u8, String, u32, Option<String>),
    /// DTLS fingerprint attribute.
    Fingerprint(Fingerprint),
    /// DTLS setup attribute.
    Setup(DtlsSetupRole),
}

/// The abstract content of an [`Attribute`].
pub ghost enum AttributeView {
    Candidate(CandidateView),
    RTPMap(u8, Seq<char>, u32, Option<Seq<char>>),
    Fingerprint(FingerprintView),
    Setup(DtlsSetupRole),
}

impl View for Attribute {
    type V = AttributeView;

    open spec fn view(&self) -> AttributeView {
        match self {
            Attribute::Candidate(c) => AttributeView::Candidate(c@),
            Attribute::RTPMap(f, n, r, p) => AttributeView::RTPMap(
                *f,
                n@,
                *r,
                match p {
                    Some(s) => Some(s@),
                    None => None,
                },
            ),
            Attribute::Fingerprint(fp) => AttributeView::Fingerprint(fp@),
            Attribute::Setup(r) => AttributeView::Setup(*r),
        }
    }
}

/// The `rtpmap` value `<fmt> <encoding>/<clock rate>[/<params>]`.
pub open spec fn parse_rtpmap_values(v: Seq<char>) -> Result<AttributeView, SdpError> {
    let parts = split_ws(v);
    if parts.len() < 2 {
        Err(SdpError::InvalidRtpMapFormatError)
    } else {
        match parse_unsigned(parts[0], 10, 255) {
            None => Err(SdpError::InvalidRtpMapFormatError),
            Some(fmt) => {
                let pieces = split_by(parts[1], '/');
                if pieces[0].len() == 0 {
                    Err(SdpError::MissingEncodingNameError)
                } else if pieces.len() < 2 {
                    Err(SdpError::MissingClockRateError)
                } else {
                    match parse_unsigned(pieces[1], 10, 0xffff_ffff) {
                        None => Err(SdpError::InvalidClockRateParsingError),
                        Some(rate) => if pieces.len() > 3 {
                            Err(SdpError::ExtraRtpFieldsError)
                        } else {
                            Ok(
                                AttributeView::RTPMap(
                                    fmt as u8,
                                    pieces[0],
                                    rate as u32,
                                    if pieces.len() > 2 {
                                        Some(pieces[2])
                                    } else {
                                        None
                                    },
                                ),
                            )
                        },
                    }
                }
            },
        }
    }
}

/// The `candidate` value
/// `<foundation> <component> <transport> <priority> <address> <port> typ <type>`;
/// the candidate type, priority, port and component are checked in that
/// order.
pub open spec fn parse_candidate_values(v: Seq<char>) -> Result<AttributeView, SdpError> {
    let parts = split_ws(v);
    if parts.len() < 8 {
        Err(SdpError::InvalidLineFormatError)
    } else if parts[6] != "typ"@ {
        Err(SdpError::InvalidCandidateFormatError)
    } else {
        match candidate_type_of(parts[7]) {
            None => Err(SdpError::InvalidCandidateTypeError),
            Some(t) => match parse_unsigned(parts[3], 10, 0xffff_ffff) {
                None => Err(SdpError::InvalidPriorityError),
                Some(priority) => match parse_unsigned(parts[5], 10, 65535) {
                    None => Err(SdpError::InvalidPortError),
                    Some(port) => match parse_unsigned(parts[1], 10, 255) {
                        None => Err(SdpError::InvalidComponentIdError),
                        Some(component) => Ok(
                            AttributeView::Candidate(
                                CandidateView {
                                    foundation: parts[0],
                                    component_id: component as u8,
                                    transport: parts[2],
                                    priority: priority as u32,
                                    address: parts[4],
                                    port: port as u16,
                                    candidate_type: t,
                                },
                            ),
                        ),
                    },
                },
            },
        }
    }
}

/// The `fingerprint` value `<algorithm> <hash>`.
pub open spec fn parse_fingerprint_values(v: Seq<char>) -> Result<AttributeView, SdpError> {
    let parts = split_ws(v);
    if parts.len() == 0 {
        Err(SdpError::InvalidAttributeFormatError)
    } else if parts.len() < 2 {
        Err(SdpError::MissingFingerprintValueError)
    } else {
        match parse_hash(trim(parts[1])) {
            Ok(b) => Ok(
                AttributeView::Fingerprint(FingerprintView { algorithm: trim(parts[0]), bytes: b }),
            ),
            Err(e) => Err(e),
        }
    }
}

/// The `setup` value: a role name.
pub open spec fn parse_setup_values(v: Seq<char>) -> Result<AttributeView, SdpError> {
    match parse_setup_role(trim(v)) {
        Ok(r) => Ok(AttributeView::Setup(r)),
        Err(e) => Err(e),
    }
}

/// An attribute line without its leading `a=`: a key, a colon, and a value
/// read according to the key.
pub open spec fn parse_attribute(s: Seq<char>) -> Result<AttributeView, SdpError> {
    match split_once(s, ':') {
        Some((key, value)) => if key == "candidate"@ {
            parse_candidate_values(value)
        } else if key == "rtpmap"@ {
            parse_rtpmap_values(value)
        } else if key == "fingerprint"@ {
            parse_fingerprint_values(value)
        } else if key == "setup"@ {
            parse_setup_values(value)
        } else {
            Err(SdpError::InvalidAttributeFormatError)
        },
        None => Err(SdpError::InvalidAttributeFormatError),
    }
}

/// Whether a parse outcome agrees with its specification.
pub open spec fn attribute_result_is(r: Result<Attribute, SdpError>, s: Result<AttributeView, SdpError>) -> bool {
    match (r, s) {
        (Ok(a), Ok(v)) => a@ == v,
        (Err(e), Err(e2)) => e == e2,
        _ => false,
    }
}

/// The attribute line form of an attribute, as its `Display` writes it.
pub open spec fn attribute_text(a: AttributeView) -> Seq<char> {
    match a {
        AttributeView::Candidate(c) => "a=candidate:"@ + c.foundation + " "@ + dec(
            c.component_id as nat,
        ) + " "@ + c.transport + " "@ + dec(c.priority as nat) + " "@ + c.address + " "@ + dec(
            c.port as nat,
        ) + " typ "@ + candidate_type_name(c.candidate_type),
        AttributeView::RTPMap(fmt, name, rate, params) => "a=rtpmap:"@ + dec(fmt as nat) + " "@
            + name + "/"@ + dec(rate as nat) + match params {
            Some(p) => "/"@ + p,
            None => Seq::empty(),
        },
        AttributeView::Fingerprint(fp) => "a=fingerprint:"@ + fp.algorithm + " "@ + hex_text(
            fp.bytes,
        ),
        AttributeView::Setup(r) => "a=setup:"@ + setup_role_name(r),
    }
}

fn parse_rtpmap_chars(chars: &[char], from: usize, to: usize) -> (r: Result<Attribute, SdpError>)
    requires
        from <= to <= chars@.len(),
    ensures
        attribute_result_is(r, parse_rtpmap_values(chars@.subrange(from as int, to as int))),
{
    let parts = split_ws_spans(chars, from, to);
    let ghost ps = spans_chars(chars@, parts@);
    if parts.len() < 2 {
        return Err(SdpError::InvalidRtpMapFormatError);
    }
    assert(ps[0] == span_chars(chars@, parts@[0]));
    assert(ps[1] == span_chars(chars@, parts@[1]));
    let fmt = match parse_u8_in(chars, parts[0].start, parts[0].end) {
        Some(f) => f,
        None => return Err(SdpError::InvalidRtpMapFormatError),
    };
    let pieces = split_spans(chars, parts[1].start, parts[1].end, '/');
    let ghost pcs = spans_chars(chars@, pieces@);
    assert(pcs.len() > 0);
    assert(pcs[0] == span_chars(chars@, pieces@[0]));
    if pieces[0].start == pieces[0].end {
        return Err(SdpError::MissingEncodingNameError);
    }
    if pieces.len() < 2 {
        return Err(SdpError::MissingClockRateError);
    }
    assert(pcs[1] == span_chars(chars@, pieces@[1]));
    let rate = match parse_u32_in(chars, pieces[1].start, pieces[1].end) {
        Some(r) => r,
        None => return Err(SdpError::InvalidClockRateParsingError),
    };
    if pieces.len() > 3 {
        return Err(SdpError::ExtraRtpFieldsError);
    }
    let name = string_of(chars, pieces[0].start, pieces[0].end);
    let params = if pieces.len() > 2 {
        assert(pcs[2] == span_chars(chars@, pieces@[2]));
        Some(string_of(chars, pieces[2].start, pieces[2].end))
    } else {
        None
    };
    Ok(Attribute::RTPMap(fmt, name, rate, params))
}

fn parse_candidate_chars(chars: &[char], from: usize, to: usize) -> (r: Result<Attribute, SdpError>)
    requires
        from <= to <= chars@.len(),
    ensures
        attribute_result_is(r, parse_candidate_values(chars@.subrange(from as int, to as int))),
{
    let parts = split_ws_spans(chars, from, to);
    let ghost ps = spans_chars(chars@, parts@);
    if parts.len() < 8 {
        return Err(SdpError::InvalidLineFormatError);
    }
    assert(forall|i: int| 0 <= i < 8 ==> ps[i] == span_chars(chars@, parts@[i]));
    if !slice_equals(chars, parts[6].start, parts[6].end, "typ") {
        return Err(SdpError::InvalidCandidateFormatError);
    }
    let t = match CandidateType::from_chars(chars, parts[7].start, parts[7].end) {
        Some(t) => t,
        None => return Err(SdpError::InvalidCandidateTypeError),
    };
    let priority = match parse_u32_in(chars, parts[3].start, parts[3].end) {
        Some(p) => p,
        None => return Err(SdpError::InvalidPriorityError),
    };
    let address = string_of(chars, parts[4].start, parts[4].end);
    let port = match parse_u16_in(chars, parts[5].start, parts[5].end) {
        Some(p) => p,
        None => return Err(SdpError::InvalidPortError),
    };
    let component = match parse_u8_in(chars, parts[1].start, parts[1].end) {
        Some(c) => c,
        None => return Err(SdpError::InvalidComponentIdError),
    };
    let foundation = string_of(chars, parts[0].start, parts[0].end);
    let transport = string_of(chars, parts[2].start, parts[2].end);
    Ok(
        Attribute::Candidate(
            Candidate::new(t, priority, address, port, component, foundation, transport),
        ),
    )
}

fn parse_fingerprint_chars(chars: &[char], from: usize, to: usize) -> (r: Result<
    Attribute,
    SdpError,
>)
    requires
        from <= to <= chars@.len(),
    ensures
        attribute_result_is(r, parse_fingerprint_values(chars@.subrange(from as int, to as int))),
{
    let parts = split_ws_spans(chars, from, to);
    let ghost ps = spans_chars(chars@, parts@);
    if parts.len() == 0 {
        return Err(SdpError::InvalidAttributeFormatError);
    }
    if parts.len() < 2 {
        return Err(SdpError::MissingFingerprintValueError);
    }
    assert(ps[0] == span_chars(chars@, parts@[0]));
    assert(ps[1] == span_chars(chars@, parts@[1]));
    let (a0, b0) = trim_bounds(chars, parts[0].start, parts[0].end);
    let (a1, b1) = trim_bounds(chars, parts[1].start, parts[1].end);
    let algorithm = string_of(chars, a0, b0);
    match Fingerprint::from_hash_chars(algorithm, chars, a1, b1) {
        Ok(fp) => Ok(Attribute::Fingerprint(fp)),
        Err(e) => Err(e),
    }
}

fn parse_setup_chars(chars: &[char], from: usize, to: usize) -> (r: Result<Attribute, SdpError>)
    requires
        from <= to <= chars@.len(),
    ensures
        attribute_result_is(r, parse_setup_values(chars@.subrange(from as int, to as int))),
{
    let (a, b) = trim_bounds(chars, from, to);
    match DtlsSetupRole::from_chars(chars, a, b) {
        Ok(role) => Ok(Attribute::Setup(role)),
        Err(e) => Err(e),
    }
}

impl Attribute {
    /// Parse the attribute line `chars[from..to]` (without the leading `a=`).
    pub fn from_chars(chars: &[char], from: usize, to: usize) -> (r: Result<Self, SdpError>)
        requires
            from <= to <= chars@.len(),
        ensures
            attribute_result_is(r, parse_attribute(chars@.subrange(from as int, to as int))),
    {
        let ghost s = chars@.subrange(from as int, to as int);
        match find_in(chars, from, to, ':') {
            Some(i) => {
                proof {
                    assert(s.subrange(0, i - from) =~= chars@.subrange(from as int, i as int));
                    assert(s.subrange(i - from + 1, s.len() as int) =~= chars@.subrange(
                        i + 1,
                        to as int,
                    ));
                }
                if slice_equals(chars, from, i, "candidate") {
                    parse_candidate_chars(chars, i + 1, to)
                } else if slice_equals(chars, from, i, "rtpmap") {
                    parse_rtpmap_chars(chars, i + 1, to)
                } else if slice_equals(chars, from, i, "fingerprint") {
                    parse_fingerprint_chars(chars, i + 1, to)
                } else if slice_equals(chars, from, i, "setup") {
                    parse_setup_chars(chars, i + 1, to)
                } else {
                    Err(SdpError::InvalidAttributeFormatError)
                }
            },
            None => Err(SdpError::InvalidAttributeFormatError),
        }
    }

    /// Parse an SDP attribute line (without the leading `a=`) into an `Attribute`.
    pub fn from_str(s: &str) -> (r: Result<Self, SdpError>)
        ensures
            attribute_result_is(r, parse_attribute(s@)),
    {
        let chars = chars_of(s);
        let r = Attribute::from_chars(chars.as_slice(), 0, chars.len());
        assert(chars@.subrange(0, chars@.len() as int) =~= s@);
        r
    }

    /// A copy of this attribute.
    pub fn duplicate(&self) -> (r: Self)
        ensures
            r@ == self@,
    {
        match self {
            Attribute::Candidate(c) => Attribute::Candidate(c.duplicate()),
            Attribute::RTPMap(f, n, rate, p) => Attribute::RTPMap(
                *f,
                n.clone(),
                *rate,
                match p {
                    Some(s) => Some(s.clone()),
                    None => None,
                },
            ),
            Attribute::Fingerprint(fp) => Attribute::Fingerprint(
                Fingerprint { algorithm: fp.algorithm.clone(), bytes: copy_bytes(&fp.bytes) },
            ),
            Attribute::Setup(r) => Attribute::Setup(*r),
        }
    }

    /// Render the attribute back to SDP attribute line form.
    pub fn to_string(&self) -> (r: String)
        ensures
            r@ == attribute_text(self@),
    {
        match self {
            Attribute::Candidate(c) => {
                let mut out = String::from_str("a=candidate:");
                out.append(c.foundation.as_str());
                out.append(" ");
                push_dec(&mut out, c.component_id as u64);
                out.append(" ");
                out.append(c.transport.as_str());
                out.append(" ");
                push_dec(&mut out, c.priority as u64);
                out.append(" ");
                out.append(c.address.as_str());
                out.append(" ");
                push_dec(&mut out, c.port as u64);
                out.append(" typ ");
                let t = c.candidate_type.to_string();
                out.append(t.as_str());
                out
            },
            Attribute::RTPMap(fmt, name, rate, params) => {
                let mut out = String::from_str("a=rtpmap:");
                push_dec(&mut out, *fmt as u64);
                out.append(" ");
                out.append(name.as_str());
                out.append("/");
                push_dec(&mut out, *rate as u64);
                match params {
                    Some(p) => {
                        out.append("/");
                        out.append(p.as_str());
                    },
                    None => {
                        assert(out@ + Seq::<char>::empty() =~= out@);
                    },
                }
                out
            },
            Attribute::Fingerprint(fp) => {
                let mut out = String::from_str("a=fingerprint:");
                out.append(fp.algorithm.as_str());
                out.append(" ");
                let h = fp.hex_value();
                out.append(h.as_str());
                out
            },
            Attribute::Setup(role) => {
                let mut out = String::from_str("a=setup:");
                let n = role.to_string();
                out.append(n.as_str());
                out
            },
        }
    }
}

fn copy_bytes(v: &Vec<u8>) -> (r: Vec<u8>)
    ensures
        r@ == v@,
{
    vstd::slice::slice_to_vec(v.as_slice())
}

impl core::str::FromStr for Attribute {
    type Err = SdpError;

    fn from_str(s: &str) -> (r: Result<Self, Self::Err>)
        ensures
            attribute_result_is(r, parse_attribute(s@)),
    {
        Attribute::from_str(s)
    }
}

} // verus!
