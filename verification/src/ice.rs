//! ICE candidates as SDP `a=candidate` attributes carry them.
use crate::text::{chars_of, slice_equals};
use vstd::prelude::*;

verus! {

/// The kinds of ICE candidate.
#[derive(Clone, Copy, Debug, PartialEq, Eq, Structural)]
pub enum CandidateType {
    Host,
    ServerReflexive,
    PeerReflexive,
    Relay,
}

/// The SDP name of a candidate type (`host`, `srflx`, `prflx`, `relay`).
pub open spec fn candidate_type_name(t: CandidateType) -> Seq<char> {
    match t {
        CandidateType::Host => "host"@,
        CandidateType::ServerReflexive => "srflx"@,
        CandidateType::PeerReflexive => "prflx"@,
        CandidateType::Relay => "relay"@,
    }
}

/// The candidate type with the given SDP name, if any.
pub open spec fn candidate_type_of(s: Seq<char>) -> Option<CandidateType> {
    if s == "host"@ {
        Some(CandidateType::Host)
    } else if s == "srflx"@ {
        Some(CandidateType::ServerReflexive)
    } else if s == "prflx"@ {
        Some(CandidateType::PeerReflexive)
    } else if s == "relay"@ {
        Some(CandidateType::Relay)
    } else {
        None
    }
}

impl CandidateType {
    /// The candidate type named by `chars[from..to]`, if any.
    pub fn from_chars(chars: &[char], from: usize, to: usize) -> (r: Option<Self>)
        requires
            from <= to <= chars@.len(),
        ensures
            r == candidate_type_of(chars@.subrange(from as int, to as int)),
    {
        if slice_equals(chars, from, to, "host") {
            Some(CandidateType::Host)
        } else if slice_equals(chars, from, to, "srflx") {
            Some(CandidateType::ServerReflexive)
        } else if slice_equals(chars, from, to, "prflx") {
            Some(CandidateType::PeerReflexive)
        } else if slice_equals(chars, from, to, "relay") {
            Some(CandidateType::Relay)
        } else {
            None
        }
    }

    /// The SDP name of this candidate type.
    pub fn to_string(&self) -> (r: String)
        ensures
            r@ == candidate_type_name(*self),
    {
        match self {
            CandidateType::Host => String::from_str("host"),
            CandidateType::ServerReflexive => String::from_str("srflx"),
            CandidateType::PeerReflexive => String::from_str("prflx"),
            CandidateType::Relay => String::from_str("relay"),
        }
    }
}

impl core::str::FromStr for CandidateType {
    type Err = ();

    fn from_str(s: &str) -> (r: Result<Self, Self::Err>)
        ensures
            match r {
                Ok(t) => candidate_type_of(s@) == Some(t),
                Err(()) => candidate_type_of(s@) is None,
            },
    {
        let chars = chars_of(s);
        assert(chars@.subrange(0, chars@.len() as int) =~= s@);
        match CandidateType::from_chars(chars.as_slice(), 0, chars.len()) {
            Some(t) => Ok(t),
            None => Err(()),
        }
    }
}

/// An ICE candidate: a transport address at which a peer may be reached.
#[derive(Clone, Debug)]
pub struct Candidate {
    pub foundation: String,
    pub component_id: u8,
    pub transport: String,
    pub priority: u32,
    pub address: String,
    pub port: u16,
    pub candidate_type: CandidateType,
}

/// The abstract content of a [`Candidate`].
pub ghost struct CandidateView {
    pub foundation: Seq<char>,
    pub component_id: u8,
    pub transport: Seq<char>,
    pub priority: u32,
    pub address: Seq<char>,
    pub port: u16,
    pub candidate_type: CandidateType,
}

impl View for Candidate {
    type V = CandidateView;

    open spec fn view(&self) -> CandidateView {
        CandidateView {
            foundation: self.foundation@,
            component_id: self.component_id,
            transport: self.transport@,
            priority: self.priority,
            address: self.address@,
            port: self.port,
            candidate_type: self.candidate_type,
        }
    }
}

impl Candidate {
    /// Creates a candidate from its fields.
    pub fn new(
        candidate_type: CandidateType,
        priority: u32,
        address: String,
        port: u16,
        component_id: u8,
        foundation: String,
        transport: String,
    ) -> (r: Self)
        ensures
            r@ == (CandidateView {
                foundation: foundation@,
                component_id,
                transport: transport@,
                priority,
                address: address@,
                port,
                candidate_type,
            }),
    {
        Candidate { foundation, component_id, transport, priority, address, port, candidate_type }
    }

    /// A copy of this candidate.
    pub fn duplicate(&self) -> (r: Self)
        ensures
            r@ == self@,
    {
        Candidate {
            foundation: self.foundation.clone(),
            component_id: self.component_id,
            transport: self.transport.clone(),
            priority: self.priority,
            address: self.address.clone(),
            port: self.port,
            candidate_type: self.candidate_type,
        }
    }
}

} // verus!
