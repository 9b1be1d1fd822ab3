use crate::ice::{Candidate, CandidateView};
use crate::number::{dec, parse_u16_in, parse_u8_in, parse_unsigned, push_dec};
use crate::sdp::attribute::{attribute_text, Attribute, AttributeView};
use crate::text::{chars_of, push_char, span_chars, spans_chars, split_ws, split_ws_spans, string_of};
use std::collections::HashSet;
use vstd::prelude::*;

verus! {

broadcast use vstd::std_specs::hash::group_hash_axioms;

/// Why an attribute cannot be added to a media description.
#[derive(Debug, PartialEq, Eq, Clone, Copy, Structural)]
pub enum MediaDescriptionError {
    InvalidAttributeFormat,
    InvalidFormat,
}

impl MediaDescriptionError {
    /// The human-readable message of this error.
    pub open spec fn message(&self) -> Seq<char> {
        match self {
            MediaDescriptionError::InvalidAttributeFormat => "Invalid attribute format"@,
            MediaDescriptionError::InvalidFormat => "Invalid format for this media description"@,
        }
    }

    /// Formats the error as a human-readable message.
    pub fn to_string(&self) -> (r: String)
        ensures
            r@ == self.message(),
    {
        match self {
            MediaDescriptionError::InvalidAttributeFormat => String::from_str(
                "Invalid attribute format",
            ),
            MediaDescriptionError::InvalidFormat => String::from_str(
                "Invalid format for this media description",
            ),
        }
    }
}

/// One `m=` section of a session description: media type, port, transport
/// protocol, payload formats and the section's attributes.
pub struct MediaDescription {
    pub media_type: String,
    pub port: u16,
    pub protocol: String,
    pub fmts: HashSet<u8>,
    pub attributes: Vec<Attribute>,
}

/// The abstract content of a [`MediaDescription`].
pub ghost struct MediaDescriptionView {
    pub media_type: Seq<char>,
    pub port: u16,
    pub protocol: Seq<char>,
    pub fmts: Set<u8>,
    pub attributes: Seq<AttributeView>,
}

/// The views of a list of attributes.
pub open spec fn attribute_views(attrs: Seq<Attribute>) -> Seq<AttributeView> {
    attrs.map_values(|a: Attribute| a@)
}

impl View for MediaDescription {
    type V = MediaDescriptionView;

    open spec fn view(&self) -> MediaDescriptionView {
        MediaDescriptionView {
            media_type: self.media_type@,
            port: self.port,
            protocol: self.protocol@,
            fmts: self.fmts@,
            attributes: attribute_views(self.attributes@),
        }
    }
}

/// The payload formats named by the tokens `parts[3..]`.
pub open spec fn fmt_set(parts: Seq<Seq<char>>, upto: int) -> Set<u8> {
    Set::new(
        |f: u8|
            exists|i: int|
                3 <= i < upto && #[trigger] parse_unsigned(parts[i], 10, 255) == Some(f as int),
    )
}

/// A media line without its leading `m=`:
/// `<media> <port> <proto> <fmt> ...`, with at least one format; the port
/// must be a `u16` and every format a `u8`.
pub open spec fn parse_media_description(s: Seq<char>) -> Option<MediaDescriptionView> {
    let parts = split_ws(s);
    if parts.len() < 4 {
        None
    } else {
        match parse_unsigned(parts[1], 10, 65535) {
            None => None,
            Some(port) => if forall|i: int|
                3 <= i < parts.len() ==> #[trigger] parse_unsigned(parts[i], 10, 255) is Some {
                Some(
                    MediaDescriptionView {
                        media_type: parts[0],
                        port: port as u16,
                        protocol: parts[2],
                        fmts: fmt_set(parts, parts.len() as int),
                        attributes: Seq::empty(),
                    },
                )
            } else {
                None
            },
        }
    }
}

/// The text of the formats in `fmts` below `upto`, in increasing order,
/// each after a space.
pub open spec fn fmts_text(fmts: Set<u8>, upto: nat) -> Seq<char>
    decreases upto,
{
    if upto == 0 {
        Seq::empty()
    } else {
        fmts_text(fmts, (upto - 1) as nat) + if fmts.contains((upto - 1) as u8) {
            " "@ + dec((upto - 1) as nat)
        } else {
            Seq::empty()
        }
    }
}

/// The attribute lines of a section, each after a newline and a space.
pub open spec fn attributes_text(attrs: Seq<AttributeView>) -> Seq<char>
    decreases attrs.len(),
{
    if attrs.len() == 0 {
        Seq::empty()
    } else {
        attributes_text(attrs.drop_last()) + "\n "@ + attribute_text(attrs.last())
    }
}

/// The text of a media section: its `m=` line (formats in increasing
/// order) and then its attribute lines.
pub open spec fn media_description_text(md: MediaDescriptionView) -> Seq<char> {
    "m="@ + md.media_type + " "@ + dec(md.port as nat) + " "@ + md.protocol + fmts_text(
        md.fmts,
        256,
    ) + attributes_text(md.attributes)
}

/// The section with `attr` added: refused when it maps a format the section
/// does not list.
pub open spec fn add_attribute_spec(md: MediaDescriptionView, attr: AttributeView) -> Result<
    MediaDescriptionView,
    MediaDescriptionError,
> {
    if attr matches AttributeView::RTPMap(fmt, _, _, _) && !md.fmts.contains(fmt) {
        Err(MediaDescriptionError::InvalidFormat)
    } else {
        Ok(MediaDescriptionView { attributes: md.attributes.push(attr), ..md })
    }
}

/// The candidates among the attributes, in order.
pub open spec fn candidates_of(attrs: Seq<AttributeView>) -> Seq<CandidateView>
    decreases attrs.len(),
{
    if attrs.len() == 0 {
        Seq::empty()
    } else {
        candidates_of(attrs.drop_last()) + match attrs.last() {
            AttributeView::Candidate(c) => seq![c],
            _ => Seq::empty(),
        }
    }
}

impl MediaDescription {
    /// A section with the given fields and no attributes.
    pub fn new(media_type: String, port: u16, protocol: String, fmts: HashSet<u8>) -> (r: Self)
        ensures
            r@ == (MediaDescriptionView {
                media_type: media_type@,
                port,
                protocol: protocol@,
                fmts: fmts@,
                attributes: Seq::empty(),
            }),
    {
        let r = Self { media_type, port, protocol, fmts, attributes: Vec::new() };
        assert(attribute_views(r.attributes@) =~= Seq::empty());
        r
    }

    /// Parses the media line `chars[from..to]` (without its leading `m=`).
    pub fn from_chars(chars: &[char], from: usize, to: usize) -> (r: Result<Self, ()>)
        requires
            from <= to <= chars@.len(),
        ensures
            match r {
                Ok(md) => parse_media_description(chars@.subrange(from as int, to as int)) == Some(
                    md@,
                ),
                Err(()) => parse_media_description(chars@.subrange(from as int, to as int)) is None,
            },
    {
        let parts = split_ws_spans(chars, from, to);
        let ghost ps = spans_chars(chars@, parts@);
        if parts.len() < 4 {
            return Err(());
        }
        assert(forall|i: int| 0 <= i < parts@.len() ==> ps[i] == span_chars(chars@, parts@[i]));
        let port = match parse_u16_in(chars, parts[1].start, parts[1].end) {
            Some(p) => p,
            None => return Err(()),
        };
        let mut fmts: HashSet<u8> = HashSet::new();
        let mut i: usize = 3;
        while i < parts.len()
            invariant
                3 <= i <= parts@.len(),
                ps == spans_chars(chars@, parts@),
                ps == split_ws(chars@.subrange(from as int, to as int)),
                parse_unsigned(ps[1], 10, 65535) == Some(port as int),
                forall|k: int| 0 <= k < parts@.len() ==> ps[k] == span_chars(chars@, parts@[k]),
                forall|k: int|
                    0 <= k < parts@.len() ==> from <= (#[trigger] parts@[k]).start <= parts@[k].end
                        <= to,
                to <= chars@.len(),
                forall|k: int| 3 <= k < i ==> #[trigger] parse_unsigned(ps[k], 10, 255) is Some,
                fmts@ == fmt_set(ps, i as int),
            decreases parts@.len() - i,
        {
            let f = match parse_u8_in(chars, parts[i].start, parts[i].end) {
                Some(f) => f,
                None => {
                    proof {
                        assert(ps[i as int] == span_chars(chars@, parts@[i as int]));
                        assert(parse_unsigned(ps[i as int], 10, 255) is None);
                    }
                    return Err(());
                },
            };
            fmts.insert(f);
            i = i + 1;
            proof {
                assert(fmts@ =~= fmt_set(ps, i as int)) by {
                    assert forall|g: u8| fmts@.contains(g) == fmt_set(ps, i as int).contains(g) by {
                        if g == f {
                            assert(parse_unsigned(ps[i - 1], 10, 255) == Some(g as int));
                        }
                        if fmt_set(ps, i as int).contains(g) {
                            let k = choose|k: int|
                                3 <= k < i && #[trigger] parse_unsigned(ps[k], 10, 255) == Some(
                                    g as int,
                                );
                            if k < i - 1 {
                                assert(fmt_set(ps, (i - 1) as int).contains(g));
                            }
                        }
                    }
                }
            }
        }
        let media_type = string_of(chars, parts[0].start, parts[0].end);
        let protocol = string_of(chars, parts[2].start, parts[2].end);
        Ok(MediaDescription::new(media_type, port, protocol, fmts))
    }

    /// Parses a media line (without its leading `m=`).
    pub fn from_str(s: &str) -> (r: Result<Self, ()>)
        ensures
            match r {
                Ok(md) => parse_media_description(s@) == Some(md@),
                Err(()) => parse_media_description(s@) is None,
            },
    {
        let chars = chars_of(s);
        assert(chars@.subrange(0, chars@.len() as int) =~= s@);
        MediaDescription::from_chars(chars.as_slice(), 0, chars.len())
    }

    /// Adds an attribute; an `rtpmap` for a format the section does not
    /// list is refused.
    pub fn add_attribute(&mut self, attr: Attribute) -> (r: Result<(), MediaDescriptionError>)
        ensures
            match add_attribute_spec(old(self)@, attr@) {
                Ok(md) => r is Ok && final(self)@ == md,
                Err(e) => r == Err::<(), MediaDescriptionError>(e) && final(self)@ == old(self)@,
            },
    {
        if let Attribute::RTPMap(fmt, _, _, _) = &attr {
            if !self.fmts.contains(fmt) {
                return Err(MediaDescriptionError::InvalidFormat);
            }
        }
        let ghost before = self.attributes@;
        self.attributes.push(attr);
        assert(attribute_views(self.attributes@) =~= attribute_views(before).push(attr@));
        Ok(())
    }

    /// The candidates among the section's attributes, in order.
    pub fn get_candidates(&self) -> (r: Vec<Candidate>)
        ensures
            r@.map_values(|c: Candidate| c@) == candidates_of(self@.attributes),
    {
        let mut candidates: Vec<Candidate> = Vec::new();
        let mut i: usize = 0;
        while i < self.attributes.len()
            invariant
                i <= self.attributes@.len(),
                candidates@.map_values(|c: Candidate| c@) == candidates_of(
                    attribute_views(self.attributes@.subrange(0, i as int)),
                ),
            decreases self.attributes@.len() - i,
        {
            let ghost before = candidates@;
            let ghost pre = attribute_views(self.attributes@.subrange(0, i as int));
            let ghost next = attribute_views(self.attributes@.subrange(0, i + 1));
            proof {
                assert(next.drop_last() =~= pre);
                assert(next.last() == self.attributes@[i as int]@);
            }
            if let Attribute::Candidate(c) = &self.attributes[i] {
                candidates.push(c.duplicate());
                assert(candidates@.map_values(|c: Candidate| c@) =~= before.map_values(
                    |c: Candidate| c@,
                ) + seq![c@]);
            } else {
                assert(candidates@.map_values(|c: Candidate| c@) =~= before.map_values(
                    |c: Candidate| c@,
                ) + Seq::<CandidateView>::empty());
            }
            i = i + 1;
        }
        assert(self.attributes@.subrange(0, self.attributes@.len() as int) =~= self.attributes@);
        candidates
    }

    /// Renders the section: its `m=` line and its attribute lines.
    pub fn to_string(&self) -> (r: String)
        ensures
            r@ == media_description_text(self@),
    {
        let mut out = String::from_str("m=");
        out.append(self.media_type.as_str());
        out.append(" ");
        push_dec(&mut out, self.port as u64);
        out.append(" ");
        out.append(self.protocol.as_str());
        let ghost head = out@;
        let mut f: u64 = 0;
        while f < 256
            invariant
                f <= 256,
                out@ == head + fmts_text(self.fmts@, f as nat),
            decreases 256 - f,
        {
            let b = f as u8;
            if self.fmts.contains(&b) {
                out.append(" ");
                push_dec(&mut out, f);
            }
            f = f + 1;
            assert(out@ =~= head + fmts_text(self.fmts@, f as nat));
        }
        let ghost mid = out@;
        let mut i: usize = 0;
        while i < self.attributes.len()
            invariant
                i <= self.attributes@.len(),
                out@ == mid + attributes_text(
                    attribute_views(self.attributes@.subrange(0, i as int)),
                ),
            decreases self.attributes@.len() - i,
        {
            let ghost pre = attribute_views(self.attributes@.subrange(0, i as int));
            let ghost next = attribute_views(self.attributes@.subrange(0, i + 1));
            proof {
                assert(next.drop_last() =~= pre);
                assert(next.last() == self.attributes@[i as int]@);
            }
            out.append("\n ");
            let a = self.attributes[i].to_string();
            out.append(a.as_str());
            i = i + 1;
            assert(out@ =~= mid + attributes_text(next));
        }
        assert(self.attributes@.subrange(0, self.attributes@.len() as int) =~= self.attributes@);
        out
    }

    /// A copy of this section.
    pub fn duplicate(&self) -> (r: Self)
        ensures
            r@ == self@,
    {
        let mut fmts: HashSet<u8> = HashSet::new();
        let mut f: u64 = 0;
        while f < 256
            invariant
                f <= 256,
                fmts@ == self.fmts@.filter(|g: u8| (g as int) < f),
            decreases 256 - f,
        {
            let b = f as u8;
            if self.fmts.contains(&b) {
                fmts.insert(b);
            }
            f = f + 1;
            assert(fmts@ =~= self.fmts@.filter(|g: u8| (g as int) < f));
        }
        assert(fmts@ =~= self.fmts@);
        let mut attributes: Vec<Attribute> = Vec::new();
        let mut i: usize = 0;
        while i < self.attributes.len()
            invariant
                i <= self.attributes@.len(),
                attribute_views(attributes@) == attribute_views(
                    self.attributes@.subrange(0, i as int),
                ),
            decreases self.attributes@.len() - i,
        {
            let ghost before = attributes@;
            let a = self.attributes[i].duplicate();
            attributes.push(a);
            proof {
                assert(attributes@ =~= before.push(a));
                assert(self.attributes@.subrange(0, i + 1) =~= self.attributes@.subrange(
                    0,
                    i as int,
                ).push(self.attributes@[i as int]));
                assert(attribute_views(before.push(a)) =~= attribute_views(before).push(a@));
                assert(attribute_views(
                    self.attributes@.subrange(0, i as int).push(self.attributes@[i as int]),
                ) =~= attribute_views(self.attributes@.subrange(0, i as int)).push(
                    self.attributes@[i as int]@,
                ));
            }
            i = i + 1;
        }
        assert(self.attributes@.subrange(0, self.attributes@.len() as int) =~= self.attributes@);
        MediaDescription {
            media_type: self.media_type.clone(),
            port: self.port,
            protocol: self.protocol.clone(),
            fmts,
            attributes,
        }
    }
}

impl core::str::FromStr for MediaDescription {
    type Err = ();

    fn from_str(s: &str) -> (r: Result<Self, Self::Err>)
        ensures
            match r {
                Ok(md) => parse_media_description(s@) == Some(md@),
                Err(()) => parse_media_description(s@) is None,
            },
    {
        MediaDescription::from_str(s)
    }
}

} // verus!
