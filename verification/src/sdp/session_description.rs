use crate::config::SdpConfig;
use crate::number::{dec, push_dec};
use crate::sdp::attribute::{parse_attribute, Attribute, AttributeView};
use crate::sdp::error::SdpError;
use crate::sdp::media_description::{
    add_attribute_spec, attribute_views, media_description_text, parse_media_description,
    MediaDescription, MediaDescriptionError, MediaDescriptionView,
};
use crate::text::{
    chars_of, find_in, slice_equals, span_chars, spans_chars, split_by, split_once, split_spans,
    trim, trim_bounds,
};
use std::collections::HashSet;
use vstd::prelude::*;

verus! {

broadcast use vstd::std_specs::hash::group_hash_axioms;

/// In-memory representation of an SDP session description.
///
/// The parser stores a subset of the SDP fields: version (`v=`), origin id
/// (`o=`), session name (`s=`), timing (`t=`), the media descriptions
/// (`m=` sections) and the session-level connection data (`c=`).
pub struct SessionDescriptionProtocol {
    /// SDP version (`v=`).
    pub version: u8,
    /// Origin/session id.
    pub origin_id: usize,
    /// Session name (`s=`).
    pub session_name: String,
    /// Timing (`t=`).
    pub timing: String,
    /// Media descriptions (`m=` sections), each with its attributes.
    pub media_descriptions: Vec<MediaDescription>,
    /// Connection data (`c=`), e.g. `IN IP4 0.0.0.0`.
    pub connection_data: String,
}

/// The abstract content of a [`SessionDescriptionProtocol`].
pub ghost struct SessionDescriptionView {
    pub version: u8,
    pub origin_id: usize,
    pub session_name: Seq<char>,
    pub timing: Seq<char>,
    pub media_descriptions: Seq<MediaDescriptionView>,
    pub connection_data: Seq<char>,
}

/// The views of a list of media descriptions.
pub open spec fn md_views(mds: Seq<MediaDescription>) -> Seq<MediaDescriptionView> {
    mds.map_values(|m: MediaDescription| m@)
}

impl View for SessionDescriptionProtocol {
    type V = SessionDescriptionView;

    open spec fn view(&self) -> SessionDescriptionView {
        SessionDescriptionView {
            version: self.version,
            origin_id: self.origin_id,
            session_name: self.session_name@,
            timing: self.timing@,
            media_descriptions: md_views(self.media_descriptions@),
            connection_data: self.connection_data@,
        }
    }
}

/// The SDP error that stands for a refused attribute.
pub open spec fn md_error_to_sdp(e: MediaDescriptionError) -> SdpError {
    match e {
        MediaDescriptionError::InvalidFormat => SdpError::UnmatchingMediaDescriptionAndAttributeError,
        MediaDescriptionError::InvalidAttributeFormat => SdpError::InvalidMediaDescriptionAttributeFormat,
    }
}

/// The media sections after reading one more line. Blank lines and lines
/// with keys other than `m` and `a` are skipped; a line without `=` is an
/// error; an `m=` line starts a section; an `a=` line is added to the last
/// section.
pub open spec fn apply_sdp_line(mds: Seq<MediaDescriptionView>, line: Seq<char>) -> Result<
    Seq<MediaDescriptionView>,
    SdpError,
> {
    let t = trim(line);
    if t.len() == 0 {
        Ok(mds)
    } else {
        match split_once(t, '=') {
            None => Err(SdpError::InvalidMediaDescriptionFormatError),
            Some((key, value)) => if key == seq!['m'] {
                match parse_media_description(value) {
                    Some(md) => Ok(mds.push(md)),
                    None => Err(SdpError::InvalidMediaDescriptionFormatError),
                }
            } else if key == seq!['a'] {
                match parse_attribute(value) {
                    Err(e) => Err(e),
                    Ok(a) => if mds.len() == 0 {
                        Err(SdpError::MissingMediaDescriptionError)
                    } else {
                        match add_attribute_spec(mds.last(), a) {
                            Ok(md) => Ok(mds.update(mds.len() - 1, md)),
                            Err(e) => Err(md_error_to_sdp(e)),
                        }
                    },
                }
            } else {
                Ok(mds)
            },
        }
    }
}

/// The media sections read from a list of lines, stopping at the first
/// error.
pub open spec fn parse_sdp_lines(lines: Seq<Seq<char>>) -> Result<
    Seq<MediaDescriptionView>,
    SdpError,
>
    decreases lines.len(),
{
    if lines.len() == 0 {
        Ok(Seq::empty())
    } else {
        match parse_sdp_lines(lines.drop_last()) {
            Err(e) => Err(e),
            Ok(mds) => apply_sdp_line(mds, lines.last()),
        }
    }
}

/// The media sections of an SDP text, whose lines are separated by `\n`.
pub open spec fn parse_sdp(s: Seq<char>) -> Result<Seq<MediaDescriptionView>, SdpError> {
    parse_sdp_lines(split_by(s, '\n'))
}

/// The text of the media sections, each after a newline.
pub open spec fn media_descriptions_text(mds: Seq<MediaDescriptionView>) -> Seq<char>
    decreases mds.len(),
{
    if mds.len() == 0 {
        Seq::empty()
    } else {
        media_descriptions_text(mds.drop_last()) + "\n"@ + media_description_text(mds.last())
    }
}

/// The text of a session description.
pub open spec fn session_description_text(d: SessionDescriptionView) -> Seq<char> {
    "v="@ + dec(d.version as nat) + "\no="@ + dec(d.origin_id as nat) + "\ns="@ + d.session_name
        + "\nt="@ + d.timing + "\nc="@ + d.connection_data + media_descriptions_text(
        d.media_descriptions,
    )
}

/// The connection data text `<net type> <address type> <address>`.
pub open spec fn connection_text(net: Seq<char>, addr_type: Seq<char>, address: Seq<char>) -> Seq<
    char,
> {
    net + " "@ + addr_type + " "@ + address
}

/// How many `rtpmap` attributes among `attrs` name the encoding `name`.
pub open spec fn count_encoding(attrs: Seq<AttributeView>, name: Seq<char>) -> nat
    decreases attrs.len(),
{
    if attrs.len() == 0 {
        0
    } else {
        count_encoding(attrs.drop_last(), name) + if attrs.last() matches AttributeView::RTPMap(
            _,
            n,
            _,
            _,
        ) && n == name {
            1nat
        } else {
            0nat
        }
    }
}

/// The attributes of an answer section: every local `rtpmap` once for each
/// offered `rtpmap` of the same encoding, every other local attribute once.
pub open spec fn answer_attributes(local: Seq<AttributeView>, offer: Seq<AttributeView>) -> Seq<
    AttributeView,
>
    decreases local.len(),
{
    if local.len() == 0 {
        Seq::empty()
    } else {
        answer_attributes(local.drop_last(), offer) + match local.last() {
            AttributeView::RTPMap(_, n, _, _) => Seq::new(
                count_encoding(offer, n),
                |i: int| local.last(),
            ),
            a => seq![a],
        }
    }
}

/// The formats of an answer section: those of the local `rtpmap`s whose
/// encoding is offered.
pub open spec fn answer_fmts(local: Seq<AttributeView>, offer: Seq<AttributeView>) -> Set<u8> {
    Set::new(
        |f: u8|
            exists|i: int|
                0 <= i < local.len() && (#[trigger] local[i] matches AttributeView::RTPMap(
                    g,
                    n,
                    _,
                    _,
                ) && g == f && count_encoding(offer, n) > 0),
    )
}

/// The answer section for a local section and the offered section it was
/// matched with; its port is zero when it keeps no attribute.
pub open spec fn answer_md(local: MediaDescriptionView, offer: MediaDescriptionView) -> MediaDescriptionView {
    let attrs = answer_attributes(local.attributes, offer.attributes);
    MediaDescriptionView {
        media_type: local.media_type,
        port: if attrs.len() == 0 {
            0
        } else {
            local.port
        },
        protocol: local.protocol,
        fmts: answer_fmts(local.attributes, offer.attributes),
        attributes: attrs,
    }
}

/// The first offered section with the local section's media type and
/// protocol.
pub open spec fn first_match(offer: Seq<MediaDescriptionView>, local: MediaDescriptionView) -> Option<
    int,
> {
    if exists|i: int|
        0 <= i < offer.len() && offer[i].media_type == local.media_type && offer[i].protocol
            == local.protocol {
        Some(
            choose|i: int|
                0 <= i < offer.len() && offer[i].media_type == local.media_type && offer[i].protocol
                    == local.protocol && forall|j: int|
                    0 <= j < i ==> !(offer[j].media_type == local.media_type && offer[j].protocol
                        == local.protocol),
        )
    } else {
        None
    }
}

/// The answer sections: one for every local section that has a matching
/// offered section, in local order.
pub open spec fn answer_mds(local: Seq<MediaDescriptionView>, offer: Seq<MediaDescriptionView>) -> Seq<
    MediaDescriptionView,
>
    decreases local.len(),
{
    if local.len() == 0 {
        Seq::empty()
    } else {
        answer_mds(local.drop_last(), offer) + match first_match(offer, local.last()) {
            Some(i) => seq![answer_md(local.last(), offer[i])],
            None => Seq::empty(),
        }
    }
}

/// The answer to an offer: the answer sections under this description's
/// version, origin, session name and timing, with connection data
/// `IN IP4 0.0.0.0`.
pub open spec fn answer_spec(local: SessionDescriptionView, offer: SessionDescriptionView) -> SessionDescriptionView {
    SessionDescriptionView {
        version: local.version,
        origin_id: local.origin_id,
        session_name: local.session_name,
        timing: local.timing,
        media_descriptions: answer_mds(local.media_descriptions, offer.media_descriptions),
        connection_data: "IN IP4 0.0.0.0"@,
    }
}

/// Whether a result agrees with its specification.
pub open spec fn sdp_result_is(
    r: Result<SessionDescriptionProtocol, SdpError>,
    s: Result<SessionDescriptionView, SdpError>,
) -> bool {
    match (r, s) {
        (Ok(d), Ok(v)) => d@ == v,
        (Err(e), Err(e2)) => e == e2,
        _ => false,
    }
}

/// The description that a text parses to: its media sections under the
/// default session values.
pub open spec fn parse_sdp_description(s: Seq<char>) -> Result<SessionDescriptionView, SdpError> {
    match parse_sdp(s) {
        Ok(mds) => Ok(
            SessionDescriptionView {
                version: 0,
                origin_id: 0,
                session_name: "-"@,
                timing: "0 0"@,
                media_descriptions: mds,
                connection_data: "IN IP4 0.0.0.0"@,
            },
        ),
        Err(e) => Err(e),
    }
}

impl core::convert::From<MediaDescriptionError> for SdpError {
    /// A media section that refuses an attribute is reported as a session
    /// description error.
    fn from(e: MediaDescriptionError) -> (r: SdpError) {
        match e {
            MediaDescriptionError::InvalidFormat => SdpError::UnmatchingMediaDescriptionAndAttributeError,
            MediaDescriptionError::InvalidAttributeFormat => SdpError::InvalidMediaDescriptionAttributeFormat,
        }
    }
}

impl vstd::std_specs::convert::FromSpecImpl<MediaDescriptionError> for SdpError {
    open spec fn obeys_from_spec() -> bool {
        true
    }

    open spec fn from_spec(e: MediaDescriptionError) -> SdpError {
        md_error_to_sdp(e)
    }
}

impl SessionDescriptionProtocol {
    /// Create a new `SessionDescriptionProtocol` with the given media
    /// descriptions and SDP configuration values.
    pub fn new(media_descriptions: Vec<MediaDescription>, sdp_config: &SdpConfig) -> (r: Self)
        ensures
            r@ == (SessionDescriptionView {
                version: sdp_config.version,
                origin_id: sdp_config.origin_id,
                session_name: sdp_config.session_name@,
                timing: sdp_config.timing@,
                media_descriptions: md_views(media_descriptions@),
                connection_data: connection_text(
                    sdp_config.connection_data_net_type@,
                    sdp_config.connection_data_addr_type@,
                    sdp_config.connection_data_address@,
                ),
            }),
    {
        let mut connection_data = sdp_config.connection_data_net_type.clone();
        connection_data.append(" ");
        connection_data.append(sdp_config.connection_data_addr_type.as_str());
        connection_data.append(" ");
        connection_data.append(sdp_config.connection_data_address.as_str());
        Self {
            version: sdp_config.version,
            origin_id: sdp_config.origin_id,
            session_name: sdp_config.session_name.clone(),
            timing: sdp_config.timing.clone(),
            media_descriptions,
            connection_data,
        }
    }

    /// Parse a full SDP session description from a string.
    pub fn from_str(s: &str) -> (r: Result<Self, SdpError>)
        ensures
            sdp_result_is(r, parse_sdp_description(s@)),
    {
        let chars = chars_of(s);
        assert(chars@.subrange(0, chars@.len() as int) =~= s@);
        match parse_media_sections(chars.as_slice()) {
            Ok(mds) => {
                let r = Self::new(mds, &SdpConfig::default());
                proof {
                    reveal_strlit("IN");
                    reveal_strlit("IP4");
                    reveal_strlit("0.0.0.0");
                    reveal_strlit(" ");
                    reveal_strlit("IN IP4 0.0.0.0");
                    assert(r.connection_data@ =~= "IN IP4 0.0.0.0"@);
                }
                Ok(r)
            },
            Err(e) => Err(e),
        }
    }

    /// Create an SDP answer based on this local description and a remote
    /// offer description (`offer_sdp`).
    ///
    /// Each local media description that has an offered one of the same
    /// media type and protocol gives an answer media description that keeps
    /// the compatible formats and attributes.
    pub fn create_answer(&self, offer_sdp: &Self) -> (r: Result<Self, SdpError>)
        ensures
            r matches Ok(a) && a@ == answer_spec(self@, offer_sdp@),
    {
        let mut answer_mds_vec: Vec<MediaDescription> = Vec::new();
        let mut i: usize = 0;
        while i < self.media_descriptions.len()
            invariant
                i <= self.media_descriptions@.len(),
                md_views(answer_mds_vec@) == answer_mds(
                    md_views(self.media_descriptions@.subrange(0, i as int)),
                    offer_sdp@.media_descriptions,
                ),
            decreases self.media_descriptions@.len() - i,
        {
            let local_md = &self.media_descriptions[i];
            let ghost pre = md_views(self.media_descriptions@.subrange(0, i as int));
            let ghost next = md_views(self.media_descriptions@.subrange(0, i + 1));
            proof {
                assert(next.drop_last() =~= pre);
                assert(next.last() == local_md@);
            }
            let ghost before = answer_mds_vec@;
            match find_offer_match(local_md, &offer_sdp.media_descriptions) {
                Some(j) => {
                    let offer_md = &offer_sdp.media_descriptions[j];
                    let (fmts, attrs) = compatible_attributes_data(local_md, offer_md);
                    let answer = create_answer_md(local_md, fmts, attrs);
                    answer_mds_vec.push(answer);
                    proof {
                        assert(md_views(answer_mds_vec@) =~= md_views(before).push(answer@));
                    }
                },
                None => {
                    assert(md_views(before) + Seq::<MediaDescriptionView>::empty() =~= md_views(
                        before,
                    ));
                },
            }
            i = i + 1;
        }
        assert(self.media_descriptions@.subrange(0, self.media_descriptions@.len() as int)
            =~= self.media_descriptions@);
        let config = SdpConfig {
            version: self.version,
            origin_id: self.origin_id,
            session_name: self.session_name.clone(),
            timing: self.timing.clone(),
            connection_data_net_type: String::from_str("IN"),
            connection_data_addr_type: String::from_str("IP4"),
            connection_data_address: String::from_str("0.0.0.0"),
        };
        let r = Self::new(answer_mds_vec, &config);
        proof {
            reveal_strlit("IN");
            reveal_strlit("IP4");
            reveal_strlit("0.0.0.0");
            reveal_strlit(" ");
            reveal_strlit("IN IP4 0.0.0.0");
            assert(r.connection_data@ =~= "IN IP4 0.0.0.0"@);
        }
        Ok(r)
    }

    /// Set the `c=` connection data for the session description.
    pub fn set_connection_data(&mut self, net_type: &str, addr_type: &str, address: &str)
        ensures
            final(self)@ == (SessionDescriptionView {
                connection_data: connection_text(net_type@, addr_type@, address@),
                ..old(self)@
            }),
    {
        let mut c = String::from_str(net_type);
        c.append(" ");
        c.append(addr_type);
        c.append(" ");
        c.append(address);
        self.connection_data = c;
    }

    /// Render the full SDP session description as a string.
    pub fn to_string(&self) -> (r: String)
        ensures
            r@ == session_description_text(self@),
    {
        let mut out = String::from_str("v=");
        push_dec(&mut out, self.version as u64);
        out.append("\no=");
        push_dec(&mut out, self.origin_id as u64);
        out.append("\ns=");
        out.append(self.session_name.as_str());
        out.append("\nt=");
        out.append(self.timing.as_str());
        out.append("\nc=");
        out.append(self.connection_data.as_str());
        let ghost head = out@;
        let mut i: usize = 0;
        while i < self.media_descriptions.len()
            invariant
                i <= self.media_descriptions@.len(),
                out@ == head + media_descriptions_text(
                    md_views(self.media_descriptions@.subrange(0, i as int)),
                ),
            decreases self.media_descriptions@.len() - i,
        {
            let ghost pre = md_views(self.media_descriptions@.subrange(0, i as int));
            let ghost next = md_views(self.media_descriptions@.subrange(0, i + 1));
            proof {
                assert(next.drop_last() =~= pre);
                assert(next.last() == self.media_descriptions@[i as int]@);
            }
            out.append("\n");
            let m = self.media_descriptions[i].to_string();
            out.append(m.as_str());
            i = i + 1;
            assert(out@ =~= head + media_descriptions_text(next));
        }
        assert(self.media_descriptions@.subrange(0, self.media_descriptions@.len() as int)
            =~= self.media_descriptions@);
        out
    }
}

impl Default for SessionDescriptionProtocol {
    /// A description without media sections, under the default session values.
    fn default() -> (r: Self)
        ensures
            r@ == (SessionDescriptionView {
                version: 0,
                origin_id: 0,
                session_name: "-"@,
                timing: "0 0"@,
                media_descriptions: Seq::empty(),
                connection_data: "IN IP4 0.0.0.0"@,
            }),
    {
        let r = Self::new(Vec::new(), &SdpConfig::default());
        proof {
            reveal_strlit("IN");
            reveal_strlit("IP4");
            reveal_strlit("0.0.0.0");
            reveal_strlit(" ");
            reveal_strlit("IN IP4 0.0.0.0");
            assert(r.connection_data@ =~= "IN IP4 0.0.0.0"@);
            assert(r@.media_descriptions =~= Seq::<MediaDescriptionView>::empty());
        }
        r
    }
}

impl core::str::FromStr for SessionDescriptionProtocol {
    type Err = SdpError;

    fn from_str(s: &str) -> (r: Result<Self, Self::Err>)
        ensures
            sdp_result_is(r, parse_sdp_description(s@)),
    {
        SessionDescriptionProtocol::from_str(s)
    }
}

/// Reads the media sections of the SDP text `chars`.
fn parse_media_sections(chars: &[char]) -> (r: Result<Vec<MediaDescription>, SdpError>)
    ensures
        match (r, parse_sdp(chars@)) {
            (Ok(mds), Ok(v)) => md_views(mds@) == v,
            (Err(e), Err(e2)) => e == e2,
            _ => false,
        },
{
    let lines = split_spans(chars, 0, chars.len(), '\n');
    let ghost ls = spans_chars(chars@, lines@);
    assert(chars@.subrange(0, chars@.len() as int) =~= chars@);
    let mut mds: Vec<MediaDescription> = Vec::new();
    let mut i: usize = 0;
    assert(ls.subrange(0, 0) =~= Seq::<Seq<char>>::empty());
    assert(md_views(mds@) =~= Seq::<MediaDescriptionView>::empty());
    while i < lines.len()
        invariant
            i <= lines@.len(),
            ls == spans_chars(chars@, lines@),
            ls == split_by(chars@, '\n'),
            forall|k: int|
                0 <= k < lines@.len() ==> (#[trigger] lines@[k]).start <= lines@[k].end
                    <= chars@.len(),
            parse_sdp_lines(ls.subrange(0, i as int)) == Ok::<Seq<MediaDescriptionView>, SdpError>(
                md_views(mds@),
            ),
        decreases lines@.len() - i,
    {
        let ghost pre = ls.subrange(0, i as int);
        let ghost next = ls.subrange(0, i + 1);
        proof {
            assert(next.drop_last() =~= pre);
            assert(next.last() == ls[i as int]);
            assert(ls[i as int] == span_chars(chars@, lines@[i as int]));
        }
        match handle_line(chars, lines[i].start, lines[i].end, &mut mds) {
            Ok(()) => {},
            Err(e) => {
                proof {
                    lemma_parse_lines_error_sticks(ls, i + 1);
                    assert(ls.subrange(0, ls.len() as int) =~= ls);
                }
                return Err(e);
            },
        }
        i = i + 1;
    }
    assert(ls.subrange(0, ls.len() as int) =~= ls);
    Ok(mds)
}

/// Once reading fails, reading more lines keeps failing with the same error.
proof fn lemma_parse_lines_error_sticks(ls: Seq<Seq<char>>, k: int)
    requires
        0 <= k <= ls.len(),
        parse_sdp_lines(ls.subrange(0, k)) is Err,
    ensures
        parse_sdp_lines(ls.subrange(0, ls.len() as int)) == parse_sdp_lines(ls.subrange(0, k)),
    decreases ls.len() - k,
{
    if k < ls.len() {
        assert(ls.subrange(0, k + 1).drop_last() =~= ls.subrange(0, k));
        lemma_parse_lines_error_sticks(ls, k + 1);
    }
}

/// Applies the SDP line `chars[from..to]` to the media sections read so far.
#[verifier::rlimit(60)]
fn handle_line(chars: &[char], from: usize, to: usize, mds: &mut Vec<MediaDescription>) -> (r: Result<
    (),
    SdpError,
>)
    requires
        from <= to <= chars@.len(),
    ensures
        match (r, apply_sdp_line(md_views(old(mds)@), chars@.subrange(from as int, to as int))) {
            (Ok(()), Ok(v)) => md_views(final(mds)@) == v,
            (Err(e), Err(e2)) => e == e2,
            _ => false,
        },
{
    let ghost line = chars@.subrange(from as int, to as int);
    let (a, b) = trim_bounds(chars, from, to);
    let ghost t = chars@.subrange(a as int, b as int);
    if a == b {
        return Ok(());
    }
    let eq = match find_in(chars, a, b, '=') {
        Some(eq) => eq,
        None => return Err(SdpError::InvalidMediaDescriptionFormatError),
    };
    proof {
        assert(t.subrange(0, eq - a) =~= chars@.subrange(a as int, eq as int));
        assert(t.subrange(eq - a + 1, t.len() as int) =~= chars@.subrange(eq + 1, b as int));
        reveal_strlit("m");
        reveal_strlit("a");
        assert("m"@ =~= seq!['m']);
        assert("a"@ =~= seq!['a']);
    }
    if slice_equals(chars, a, eq, "m") {
        handle_media_description_line(chars, eq + 1, b, mds)
    } else if slice_equals(chars, a, eq, "a") {
        handle_attribute_line(chars, eq + 1, b, mds)
    } else {
        Ok(())
    }
}

/// Parse the media description line `chars[from..to]` (after `m=`) and
/// append it to the media descriptions.
fn handle_media_description_line(
    chars: &[char],
    from: usize,
    to: usize,
    media_descriptions: &mut Vec<MediaDescription>,
) -> (r: Result<(), SdpError>)
    requires
        from <= to <= chars@.len(),
    ensures
        match parse_media_description(chars@.subrange(from as int, to as int)) {
            Some(md) => r is Ok && md_views(final(media_descriptions)@) == md_views(
                old(media_descriptions)@,
            ).push(md),
            None => r == Err::<(), SdpError>(SdpError::InvalidMediaDescriptionFormatError),
        },
{
    match MediaDescription::from_chars(chars, from, to) {
        Ok(md) => {
            let ghost before = media_descriptions@;
            media_descriptions.push(md);
            assert(md_views(media_descriptions@) =~= md_views(before).push(md@));
            Ok(())
        },
        Err(()) => Err(SdpError::InvalidMediaDescriptionFormatError),
    }
}

/// Parse the attribute line `chars[from..to]` (after `a=`) and attach it
/// to the last media description; an error when there is none.
fn handle_attribute_line(
    chars: &[char],
    from: usize,
    to: usize,
    media_descriptions: &mut Vec<MediaDescription>,
) -> (r: Result<(), SdpError>)
    requires
        from <= to <= chars@.len(),
    ensures
        match parse_attribute(chars@.subrange(from as int, to as int)) {
            Err(e) => r == Err::<(), SdpError>(e),
            Ok(a) => if old(media_descriptions)@.len() == 0 {
                r == Err::<(), SdpError>(SdpError::MissingMediaDescriptionError)
            } else {
                let mds = md_views(old(media_descriptions)@);
                match add_attribute_spec(mds.last(), a) {
                    Ok(md) => r is Ok && md_views(final(media_descriptions)@) == mds.update(
                        mds.len() - 1,
                        md,
                    ),
                    Err(e) => r == Err::<(), SdpError>(md_error_to_sdp(e)),
                }
            },
        },
{
    let attribute = match Attribute::from_chars(chars, from, to) {
        Ok(attr) => attr,
        Err(e) => return Err(e),
    };
    match media_descriptions.pop() {
        Some(mut m) => {
            let ghost rest = media_descriptions@;
            assert(md_views(old(media_descriptions)@).last() == m@);
            assert(md_views(rest) =~= md_views(old(media_descriptions)@).drop_last());
            match m.add_attribute(attribute) {
                Ok(()) => {
                    media_descriptions.push(m);
                    assert(md_views(media_descriptions@) =~= md_views(
                        old(media_descriptions)@,
                    ).update(md_views(old(media_descriptions)@).len() - 1, m@));
                    Ok(())
                },
                Err(e) => Err(SdpError::from(e)),
            }
        },
        None => Err(SdpError::MissingMediaDescriptionError),
    }
}

/// Index of the first offered section with `local`'s media type and protocol.
fn find_offer_match(local: &MediaDescription, offer: &Vec<MediaDescription>) -> (r: Option<usize>)
    ensures
        match r {
            Some(j) => j < offer@.len() && first_match(md_views(offer@), local@) == Some(j as int),
            None => first_match(md_views(offer@), local@) is None,
        },
{
    let ghost ov = md_views(offer@);
    let mut j: usize = 0;
    while j < offer.len()
        invariant
            j <= offer@.len(),
            ov == md_views(offer@),
            forall|k: int|
                0 <= k < j ==> !(ov[k].media_type == local@.media_type && ov[k].protocol
                    == local@.protocol),
        decreases offer@.len() - j,
    {
        if offer[j].media_type == local.media_type && offer[j].protocol == local.protocol {
            proof {
                let w = choose|w: int|
                    0 <= w < ov.len() && ov[w].media_type == local@.media_type && ov[w].protocol
                        == local@.protocol && forall|k: int|
                        0 <= k < w ==> !(ov[k].media_type == local@.media_type && ov[k].protocol
                            == local@.protocol);
                assert(ov[j as int].media_type == local@.media_type);
                if w < j {
                    assert(!(ov[w].media_type == local@.media_type && ov[w].protocol
                        == local@.protocol));
                }
                if j < w {
                    assert(!(ov[j as int].media_type == local@.media_type && ov[j as int].protocol
                        == local@.protocol));
                }
            }
            return Some(j);
        }
        j = j + 1;
    }
    None
}

/// Given a local media description and an offer media description, the set
/// of formats and the list of attributes that the answer keeps.
fn compatible_attributes_data(local_md: &MediaDescription, offer_md: &MediaDescription) -> (r: (
    HashSet<u8>,
    Vec<Attribute>,
))
    ensures
        r.0@ == answer_fmts(local_md@.attributes, offer_md@.attributes),
        attribute_views(r.1@) == answer_attributes(local_md@.attributes, offer_md@.attributes),
        forall|k: int|
            0 <= k < r.1@.len() ==> ((#[trigger] r.1@[k])@ matches AttributeView::RTPMap(f, _, _, _)
                ==> r.0@.contains(f)),
{
    let ghost la = local_md@.attributes;
    let ghost oa = offer_md@.attributes;
    let mut answer_md_attributes: Vec<Attribute> = Vec::new();
    let mut answer_md_fmts: HashSet<u8> = HashSet::new();
    let mut i: usize = 0;
    while i < local_md.attributes.len()
        invariant
            i <= local_md.attributes@.len(),
            la == local_md@.attributes,
            oa == offer_md@.attributes,
            answer_md_fmts@ == answer_fmts(la.subrange(0, i as int), oa),
            attribute_views(answer_md_attributes@) == answer_attributes(
                la.subrange(0, i as int),
                oa,
            ),
            forall|k: int|
                0 <= k < answer_md_attributes@.len() ==> ((#[trigger] answer_md_attributes@[k])@ matches AttributeView::RTPMap(
                    f,
                    _,
                    _,
                    _,
                ) ==> answer_md_fmts@.contains(f)),
        decreases local_md.attributes@.len() - i,
    {
        let local_attr = &local_md.attributes[i];
        let ghost pre = la.subrange(0, i as int);
        let ghost next = la.subrange(0, i + 1);
        proof {
            assert(next.drop_last() =~= pre);
            assert(next.last() == local_attr@);
            assert(la[i as int] == local_attr@);
        }
        let ghost base = answer_md_attributes@;
        let ghost base_fmts = answer_md_fmts@;
        if let Attribute::RTPMap(local_fmt, local_encoding_name, _, _) = local_attr {
            let mut j: usize = 0;
            while j < offer_md.attributes.len()
                invariant
                    j <= offer_md.attributes@.len(),
                    oa == offer_md@.attributes,
                    local_attr@ matches AttributeView::RTPMap(f, n, _, _) && f == *local_fmt && n
                        == local_encoding_name@,
                    answer_md_attributes@.len() == base.len() + count_encoding(
                        oa.subrange(0, j as int),
                        local_encoding_name@,
                    ),
                    attribute_views(answer_md_attributes@) == attribute_views(base) + Seq::new(
                        count_encoding(oa.subrange(0, j as int), local_encoding_name@),
                        |k: int| local_attr@,
                    ),
                    answer_md_fmts@ == if count_encoding(
                        oa.subrange(0, j as int),
                        local_encoding_name@,
                    ) > 0 {
                        base_fmts.insert(*local_fmt)
                    } else {
                        base_fmts
                    },
                    forall|k: int|
                        0 <= k < base.len() ==> ((#[trigger] base[k])@ matches AttributeView::RTPMap(
                            f,
                            _,
                            _,
                            _,
                        ) ==> base_fmts.contains(f)),
                    forall|k: int|
                        0 <= k < answer_md_attributes@.len() ==> answer_md_attributes@[k]@
                            == attribute_views(answer_md_attributes@)[k],
                decreases offer_md.attributes@.len() - j,
            {
                let ghost opre = oa.subrange(0, j as int);
                let ghost onext = oa.subrange(0, j + 1);
                proof {
                    assert(onext.drop_last() =~= opre);
                    assert(onext.last() == offer_md.attributes@[j as int]@);
                }
                let ghost before = answer_md_attributes@;
                let ghost c_before = count_encoding(opre, local_encoding_name@);
                let mut matched = false;
                let offer_attr = &offer_md.attributes[j];
                assert(onext.last() == offer_attr@);
                if let Attribute::RTPMap(_, offer_encoding_name, _, _) = offer_attr {
                    if *local_encoding_name == *offer_encoding_name {
                        matched = true;
                    }
                    proof {
                        assert(matched == (local_encoding_name@ == offer_encoding_name@));
                    }
                }
                proof {
                    let c_after = count_encoding(onext, local_encoding_name@);
                    assert(c_after == count_encoding(opre, local_encoding_name@) + if onext.last() matches AttributeView::RTPMap(
                        _,
                        n,
                        _,
                        _,
                    ) && n == local_encoding_name@ {
                        1nat
                    } else {
                        0nat
                    });
                    if matched {
                        assert(c_after == c_before + 1);
                    } else {
                        assert(c_after == c_before);
                    }
                }
                if matched {
                    answer_md_fmts.insert(*local_fmt);
                    let a = local_attr.duplicate();
                    answer_md_attributes.push(a);
                    proof {
                        assert(attribute_views(answer_md_attributes@) =~= attribute_views(
                            before,
                        ).push(a@));
                        assert(Seq::new(c_before + 1, |k: int| local_attr@) =~= Seq::new(
                            c_before,
                            |k: int| local_attr@,
                        ).push(local_attr@));
                    }
                }
                j = j + 1;
                proof {
                    assert(attribute_views(answer_md_attributes@) =~= attribute_views(base)
                        + Seq::new(
                        count_encoding(oa.subrange(0, j as int), local_encoding_name@),
                        |k: int| local_attr@,
                    ));
                }
            }
            proof {
                assert(oa.subrange(0, oa.len() as int) =~= oa);
                assert(answer_md_fmts@ =~= answer_fmts(next, oa)) by {
                    assert forall|g: u8| answer_md_fmts@.contains(g) == answer_fmts(
                        next,
                        oa,
                    ).contains(g) by {
                        if answer_fmts(next, oa).contains(g) {
                            let w = choose|w: int|
                                0 <= w < next.len() && (#[trigger] next[w] matches AttributeView::RTPMap(
                                    h,
                                    n,
                                    _,
                                    _,
                                ) && h == g && count_encoding(oa, n) > 0);
                            if w < i {
                                assert(next[w] == pre[w]);
                                assert(answer_fmts(pre, oa).contains(g));
                            }
                        }
                        if base_fmts.contains(g) {
                            let w = choose|w: int|
                                0 <= w < pre.len() && (#[trigger] pre[w] matches AttributeView::RTPMap(
                                    h,
                                    n,
                                    _,
                                    _,
                                ) && h == g && count_encoding(oa, n) > 0);
                            assert(next[w] == pre[w]);
                        }
                        if count_encoding(oa, local_encoding_name@) > 0 && g == *local_fmt {
                            assert(next[i as int] == local_attr@);
                        }
                    }
                }
                assert(attribute_views(answer_md_attributes@) =~= answer_attributes(next, oa));
                assert forall|k: int| 0 <= k < answer_md_attributes@.len() implies ((
                #[trigger] answer_md_attributes@[k])@ matches AttributeView::RTPMap(f, _, _, _)
                    ==> answer_md_fmts@.contains(f)) by {
                    if k < base.len() {
                        assert(answer_md_attributes@[k]@ == attribute_views(
                            answer_md_attributes@,
                        )[k]);
                        assert(attribute_views(answer_md_attributes@)[k] == attribute_views(
                            base,
                        )[k]);
                        assert(attribute_views(base)[k] == base[k]@);
                    } else {
                        assert(answer_md_attributes@[k]@ == attribute_views(
                            answer_md_attributes@,
                        )[k]);
                    }
                }
            }
        } else {
            let a = local_attr.duplicate();
            answer_md_attributes.push(a);
            proof {
                assert(attribute_views(answer_md_attributes@) =~= attribute_views(base).push(a@));
                assert(attribute_views(answer_md_attributes@) =~= answer_attributes(next, oa));
                assert(answer_md_fmts@ =~= answer_fmts(next, oa)) by {
                    assert forall|g: u8| answer_md_fmts@.contains(g) == answer_fmts(
                        next,
                        oa,
                    ).contains(g) by {
                        if answer_fmts(next, oa).contains(g) {
                            let w = choose|w: int|
                                0 <= w < next.len() && (#[trigger] next[w] matches AttributeView::RTPMap(
                                    h,
                                    n,
                                    _,
                                    _,
                                ) && h == g && count_encoding(oa, n) > 0);
                            assert(w < i);
                            assert(next[w] == pre[w]);
                        }
                        if base_fmts.contains(g) {
                            let w = choose|w: int|
                                0 <= w < pre.len() && (#[trigger] pre[w] matches AttributeView::RTPMap(
                                    h,
                                    n,
                                    _,
                                    _,
                                ) && h == g && count_encoding(oa, n) > 0);
                            assert(next[w] == pre[w]);
                        }
                    }
                }
            }
        }
        i = i + 1;
    }
    assert(la.subrange(0, la.len() as int) =~= la);
    (answer_md_fmts, answer_md_attributes)
}

/// Build a `MediaDescription` for the answer from the given local media
/// description, the set of selected formats and the attributes to include.
fn create_answer_md(
    local_md: &MediaDescription,
    answer_md_fmts: HashSet<u8>,
    answer_md_attributes: Vec<Attribute>,
) -> (r: MediaDescription)
    requires
        forall|k: int|
            0 <= k < answer_md_attributes@.len() ==> ((#[trigger] answer_md_attributes@[k])@ matches AttributeView::RTPMap(
                f,
                _,
                _,
                _,
            ) ==> answer_md_fmts@.contains(f)),
    ensures
        r@ == (MediaDescriptionView {
            media_type: local_md@.media_type,
            port: if answer_md_attributes@.len() == 0 {
                0
            } else {
                local_md.port
            },
            protocol: local_md@.protocol,
            fmts: answer_md_fmts@,
            attributes: attribute_views(answer_md_attributes@),
        }),
{
    let port = if answer_md_attributes.len() == 0 {
        0
    } else {
        local_md.port
    };
    let ghost fmts = answer_md_fmts@;
    let ghost all = answer_md_attributes@;
    let mut answer_md = MediaDescription::new(
        local_md.media_type.clone(),
        port,
        local_md.protocol.clone(),
        answer_md_fmts,
    );
    let mut rest = answer_md_attributes;
    let mut k: usize = 0;
    let n = rest.len();
    while rest.len() > 0
        invariant
            k + rest@.len() == n,
            n == all.len(),
            rest@ == all.subrange(k as int, n as int),
            answer_md@.fmts == fmts,
            answer_md@.media_type == local_md@.media_type,
            answer_md@.protocol == local_md@.protocol,
            answer_md@.port == port,
            answer_md@.attributes == attribute_views(all.subrange(0, k as int)),
            forall|j: int|
                0 <= j < all.len() ==> ((#[trigger] all[j])@ matches AttributeView::RTPMap(
                    f,
                    _,
                    _,
                    _,
                ) ==> fmts.contains(f)),
        decreases rest@.len(),
    {
        let attr = rest.remove(0);
        assert(attr == all[k as int]);
        assert(rest@ =~= all.subrange(k + 1, n as int));
        let ghost before = answer_md@;
        match answer_md.add_attribute(attr) {
            Ok(()) => {},
            Err(_) => {
                assert(false);
            },
        }
        k = k + 1;
        assert(all.subrange(0, k as int).drop_last() =~= all.subrange(0, k - 1));
        assert(attribute_views(all.subrange(0, k as int)) =~= attribute_views(
            all.subrange(0, k - 1),
        ).push(all[k - 1]@));
    }
    assert(all.subrange(0, n as int) =~= all);
    answer_md
}

/// Creating an answer never fails: every `rtpmap` an answer section keeps
/// maps one of that section's formats.
pub proof fn lemma_answer_attributes_have_their_fmts(
    local: Seq<AttributeView>,
    offer: Seq<AttributeView>,
)
    ensures
        forall|k: int|
            0 <= k < answer_attributes(local, offer).len() ==> (#[trigger] answer_attributes(
                local,
                offer,
            )[k] matches AttributeView::RTPMap(f, _, _, _) ==> answer_fmts(local, offer).contains(f)),
    decreases local.len(),
{
    if local.len() > 0 {
        let pre = local.drop_last();
        lemma_answer_attributes_have_their_fmts(pre, offer);
        let a = answer_attributes(local, offer);
        let b = answer_attributes(pre, offer);
        assert forall|k: int| 0 <= k < a.len() implies (#[trigger] a[k] matches AttributeView::RTPMap(
            f,
            _,
            _,
            _,
        ) ==> answer_fmts(local, offer).contains(f)) by {
            if k < b.len() {
                assert(a[k] == b[k]);
                if let AttributeView::RTPMap(f, _, _, _) = a[k] {
                    assert(answer_fmts(pre, offer).contains(f));
                    let w = choose|w: int|
                        0 <= w < pre.len() && (#[trigger] pre[w] matches AttributeView::RTPMap(
                            h,
                            n,
                            _,
                            _,
                        ) && h == f && count_encoding(offer, n) > 0);
                    assert(local[w] == pre[w]);
                }
            } else {
                assert(local[local.len() - 1] == local.last());
            }
        }
    }
}


} // verus!
