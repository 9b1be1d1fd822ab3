use vstd::prelude::*;

verus! {

/// Channel types of the Data Channel Establishment Protocol.
#[derive(Copy, Clone, PartialEq, Eq, Debug, Structural)]
pub enum DataChannelType {
    /// Reliable, ordered delivery (wire value `0x00`).
    Reliable,
}

/// The DCEP wire value of a channel type.
pub open spec fn dc_type_value(t: DataChannelType) -> u8 {
    match t {
        DataChannelType::Reliable => 0x00,
    }
}

/// The channel type with the given wire value, if any.
pub open spec fn dc_type_of(v: u8) -> Option<DataChannelType> {
    if v == 0x00 {
        Some(DataChannelType::Reliable)
    } else {
        None
    }
}

impl DataChannelType {
    /// The channel type with the given DCEP wire value, if any.
    pub fn from_u8(v: u8) -> (r: Option<Self>)
        ensures
            r == dc_type_of(v),
    {
        if v == 0x00 {
            Some(DataChannelType::Reliable)
        } else {
            None
        }
    }

    /// Returns the DCEP wire value for this data channel type.
    pub fn to_u8(&self) -> (r: u8)
        ensures
            r == dc_type_value(*self),
    {
        match self {
            DataChannelType::Reliable => 0x00,
        }
    }

    /// Returns whether messages are delivered in order for this type.
    pub fn ordered(&self) -> (r: bool)
        ensures
            r == (match *self {
                DataChannelType::Reliable => true,
            }),
    {
        match self {
            DataChannelType::Reliable => true,
        }
    }
}

impl core::convert::TryFrom<u8> for DataChannelType {
    type Error = ();

    fn try_from(v: u8) -> Result<Self, Self::Error> {
        match DataChannelType::from_u8(v) {
            Some(t) => Ok(t),
            None => Err(()),
        }
    }
}

impl vstd::std_specs::convert::TryFromSpecImpl<u8> for DataChannelType {
    open spec fn obeys_try_from_spec() -> bool {
        true
    }

    open spec fn try_from_spec(v: u8) -> Result<Self, ()> {
        match dc_type_of(v) {
            Some(t) => Ok(t),
            None => Err(()),
        }
    }
}

/// Every channel type is recovered from its wire value.
pub proof fn lemma_dc_type_roundtrip(t: DataChannelType)
    ensures
        dc_type_of(dc_type_value(t)) == Some(t),
{
}

} // verus!
