use crate::sctp_transport::data_channel::dc_type::{dc_type_of, dc_type_value, DataChannelType};
use crate::wire::{
    be16, be32, from_be16, from_be32, lemma_be16_decode, lemma_be16_encode, lemma_be32_decode,
    lemma_be32_encode, push_all, push_be16, push_be32, read_be16, read_be32,
};
use vstd::prelude::*;
use vstd::slice::slice_to_vec;
use vstd::string::StringSliceAdditionalSpecFns;
use vstd::utf8::{decode_utf8, encode_utf8, valid_utf8};

verus! {

/// Message type byte of `DATA_CHANNEL_OPEN`.
pub const DATA_CHANNEL_OPEN: u8 = 0x03;

/// Message type byte of `DATA_CHANNEL_ACK`.
pub const DATA_CHANNEL_ACK: u8 = 0x02;

/// Messages of the Data Channel Establishment Protocol.
pub enum DCEPMessage {
    DataChannelOpen {
        channel_type: DataChannelType,
        priority: u16,
        reliability_parameter: u32,
        label: String,
        protocol: String,
    },
    DataChannelAck,
}

/// The abstract content of a [`DCEPMessage`].
pub ghost enum DCEPMessageView {
    Open {
        channel_type: DataChannelType,
        priority: u16,
        reliability_parameter: u32,
        label: Seq<char>,
        protocol: Seq<char>,
    },
    Ack,
}

impl View for DCEPMessage {
    type V = DCEPMessageView;

    open spec fn view(&self) -> DCEPMessageView {
        match self {
            DCEPMessage::DataChannelOpen {
                channel_type,
                priority,
                reliability_parameter,
                label,
                protocol,
            } => DCEPMessageView::Open {
                channel_type: *channel_type,
                priority: *priority,
                reliability_parameter: *reliability_parameter,
                label: label@,
                protocol: protocol@,
            },
            DCEPMessage::DataChannelAck => DCEPMessageView::Ack,
        }
    }
}

/// The 16-bit length field written for a text: its UTF-8 length, cut to
/// 16 bits.
pub open spec fn len16(s: Seq<char>) -> u16 {
    (encode_utf8(s).len() as usize) as u16
}

/// Wire layout: for an open, the type byte, channel type, priority,
/// reliability parameter, label length and protocol length, then the UTF-8
/// label and protocol; for an ack, the single type byte.
pub open spec fn dcep_bytes(m: DCEPMessageView) -> Seq<u8> {
    match m {
        DCEPMessageView::Open { channel_type, priority, reliability_parameter, label, protocol } =>
            seq![DATA_CHANNEL_OPEN, dc_type_value(channel_type)] + be16(priority) + be32(
            reliability_parameter,
        ) + be16(len16(label)) + be16(len16(protocol)) + encode_utf8(label) + encode_utf8(
            protocol,
        ),
        DCEPMessageView::Ack => seq![DATA_CHANNEL_ACK],
    }
}

/// Index just past the label of an open message.
pub open spec fn label_end(data: Seq<u8>) -> int {
    12 + from_be16(data, 8)
}

/// Index just past the protocol of an open message.
pub open spec fn protocol_end(data: Seq<u8>) -> int {
    label_end(data) + from_be16(data, 10)
}

/// Decoding of the wire layout. An open needs its 12-byte header, both
/// texts within the input, a known channel type and valid UTF-8 texts;
/// bytes after the protocol are ignored.
pub open spec fn dcep_parse(data: Seq<u8>) -> Option<DCEPMessageView> {
    if data.len() == 0 {
        None
    } else if data[0] == DATA_CHANNEL_OPEN {
        if data.len() < 12 || data.len() < protocol_end(data) {
            None
        } else {
            let label = data.subrange(12, label_end(data));
            let protocol = data.subrange(label_end(data), protocol_end(data));
            match dc_type_of(data[1]) {
                Some(t) => if valid_utf8(label) && valid_utf8(protocol) {
                    Some(
                        DCEPMessageView::Open {
                            channel_type: t,
                            priority: from_be16(data, 2),
                            reliability_parameter: from_be32(data, 4),
                            label: decode_utf8(label),
                            protocol: decode_utf8(protocol),
                        },
                    )
                } else {
                    None
                },
                None => None,
            }
        }
    } else if data[0] == DATA_CHANNEL_ACK {
        Some(DCEPMessageView::Ack)
    } else {
        None
    }
}

/// Calls `String::from_utf8` and keeps the string when the bytes are valid
/// UTF-8. Claimed of it: a string is returned exactly when the bytes are
/// valid UTF-8, and its characters are the ones the bytes encode.
#[verifier::external_body]
fn string_from_utf8(bytes: Vec<u8>) -> (r: Option<String>)
    ensures
        r is Some <==> valid_utf8(bytes@),
        r matches Some(s) ==> s@ == decode_utf8(bytes@),
{
    String::from_utf8(bytes).ok()
}

impl DCEPMessage {
    /// Encodes the message in its wire layout.
    pub fn to_bytes(&self) -> (r: Vec<u8>)
        ensures
            r@ == dcep_bytes(self@),
    {
        match self {
            DCEPMessage::DataChannelOpen {
                channel_type,
                priority,
                reliability_parameter,
                label,
                protocol,
            } => {
                let label_len = label.as_str().len() as u16;
                let protocol_len = protocol.as_str().len() as u16;
                let mut bytes: Vec<u8> = Vec::with_capacity(12);
                bytes.push(DATA_CHANNEL_OPEN);
                bytes.push(channel_type.to_u8());
                push_be16(&mut bytes, *priority);
                push_be32(&mut bytes, *reliability_parameter);
                push_be16(&mut bytes, label_len);
                push_be16(&mut bytes, protocol_len);
                push_all(&mut bytes, label.as_str().as_bytes());
                push_all(&mut bytes, protocol.as_str().as_bytes());
                assert(bytes@ =~= dcep_bytes(self@));
                bytes
            },
            DCEPMessage::DataChannelAck => {
                let mut bytes: Vec<u8> = Vec::new();
                bytes.push(DATA_CHANNEL_ACK);
                assert(bytes@ =~= dcep_bytes(self@));
                bytes
            },
        }
    }

    /// Decodes a message; `None` for anything that is not a well-formed
    /// open or ack.
    pub fn from_bytes(bytes: &[u8]) -> (r: Option<Self>)
        ensures
            match r {
                Some(m) => dcep_parse(bytes@) == Some(m@),
                None => dcep_parse(bytes@) is None,
            },
    {
        if bytes.len() == 0 {
            return None;
        }
        if bytes[0] == DATA_CHANNEL_OPEN {
            if bytes.len() < 12 {
                return None;
            }
            let label_len = read_be16(bytes, 8) as usize;
            let protocol_len = read_be16(bytes, 10) as usize;
            let label_start: usize = 12;
            let label_end = label_start + label_len;
            let protocol_end = label_end + protocol_len;
            if bytes.len() < protocol_end {
                return None;
            }
            let channel_type = match DataChannelType::from_u8(bytes[1]) {
                Some(t) => t,
                None => return None,
            };
            let priority = read_be16(bytes, 2);
            let reliability_parameter = read_be32(bytes, 4);
            let label = match string_from_utf8(slice_to_vec(&bytes[label_start..label_end])) {
                Some(s) => s,
                None => return None,
            };
            let protocol = match string_from_utf8(slice_to_vec(&bytes[label_end..protocol_end])) {
                Some(s) => s,
                None => return None,
            };
            Some(
                DCEPMessage::DataChannelOpen {
                    channel_type,
                    priority,
                    reliability_parameter,
                    label,
                    protocol,
                },
            )
        } else if bytes[0] == DATA_CHANNEL_ACK {
            Some(DCEPMessage::DataChannelAck)
        } else {
            None
        }
    }
}

/// Decoding the bytes of a message gives it back, provided its label and
/// protocol are shorter than 65536 bytes in UTF-8 (longer ones do not fit
/// the 16-bit length fields).
pub proof fn lemma_dcep_roundtrip(m: DCEPMessageView)
    requires
        m matches DCEPMessageView::Open { label, protocol, .. } ==> encode_utf8(label).len()
            < 65536 && encode_utf8(protocol).len() < 65536,
    ensures
        dcep_parse(dcep_bytes(m)) == Some(m),
{
    broadcast use vstd::utf8::encode_utf8_valid_utf8, vstd::utf8::encode_utf8_decode_utf8;

    match m {
        DCEPMessageView::Open { channel_type, priority, reliability_parameter, label, protocol } => {
            let b = dcep_bytes(m);
            let el = encode_utf8(label);
            let ep = encode_utf8(protocol);
            assert(len16(label) == el.len());
            assert(len16(protocol) == ep.len());
            assert(b.subrange(2, 4) =~= be16(priority));
            assert(b.subrange(4, 8) =~= be32(reliability_parameter));
            assert(b.subrange(8, 10) =~= be16(len16(label)));
            assert(b.subrange(10, 12) =~= be16(len16(protocol)));
            lemma_be16_decode(priority, b, 2);
            lemma_be32_decode(reliability_parameter, b, 4);
            lemma_be16_decode(len16(label), b, 8);
            lemma_be16_decode(len16(protocol), b, 10);
            assert(b.len() == 12 + el.len() + ep.len());
            assert(b.subrange(12, label_end(b)) =~= el);
            assert(b.subrange(label_end(b), protocol_end(b)) =~= ep);
        },
        DCEPMessageView::Ack => {},
    }
}

/// Bytes received after a message (such as the unused rest of a receive
/// buffer) do not change what it decodes to; the same length limits apply
/// as for `lemma_dcep_roundtrip`.
pub proof fn lemma_dcep_trailing_bytes(m: DCEPMessageView, extra: Seq<u8>)
    requires
        m matches DCEPMessageView::Open { label, protocol, .. } ==> encode_utf8(label).len()
            < 65536 && encode_utf8(protocol).len() < 65536,
    ensures
        dcep_parse(dcep_bytes(m) + extra) == Some(m),
{
    broadcast use vstd::utf8::encode_utf8_valid_utf8, vstd::utf8::encode_utf8_decode_utf8;

    match m {
        DCEPMessageView::Open { channel_type, priority, reliability_parameter, label, protocol } => {
            let b = dcep_bytes(m) + extra;
            let el = encode_utf8(label);
            let ep = encode_utf8(protocol);
            assert(len16(label) == el.len());
            assert(len16(protocol) == ep.len());
            assert(b[0] == DATA_CHANNEL_OPEN);
            assert(b[1] == dc_type_value(channel_type));
            assert(b.subrange(2, 4) =~= be16(priority));
            assert(b.subrange(4, 8) =~= be32(reliability_parameter));
            assert(b.subrange(8, 10) =~= be16(len16(label)));
            assert(b.subrange(10, 12) =~= be16(len16(protocol)));
            lemma_be16_decode(priority, b, 2);
            lemma_be32_decode(reliability_parameter, b, 4);
            lemma_be16_decode(len16(label), b, 8);
            lemma_be16_decode(len16(protocol), b, 10);
            assert(b.len() == 12 + el.len() + ep.len() + extra.len());
            assert(b.subrange(12, label_end(b)) =~= el);
            assert(b.subrange(label_end(b), protocol_end(b)) =~= ep);
        },
        DCEPMessageView::Ack => {
            assert((dcep_bytes(m) + extra)[0] == DATA_CHANNEL_ACK);
        },
    }
}

/// A decoded message encodes back to the bytes it was decoded from, up to
/// the end of its protocol text.
pub proof fn lemma_dcep_reencode(data: Seq<u8>)
    requires
        dcep_parse(data) is Some,
    ensures
        dcep_parse(data) matches Some(m) && dcep_bytes(m) == (if data[0] == DATA_CHANNEL_OPEN {
            data.subrange(0, protocol_end(data))
        } else {
            data.subrange(0, 1)
        }),
{
    broadcast use vstd::utf8::decode_utf8_encode_utf8;

    let m = dcep_parse(data).unwrap();
    if data[0] == DATA_CHANNEL_OPEN {
        let l = data.subrange(12, label_end(data));
        let p = data.subrange(label_end(data), protocol_end(data));
        assert(encode_utf8(decode_utf8(l)) == l);
        assert(encode_utf8(decode_utf8(p)) == p);
        lemma_be16_encode(data, 2);
        lemma_be32_encode(data, 4);
        lemma_be16_encode(data, 8);
        lemma_be16_encode(data, 10);
        assert(dcep_bytes(m) =~= data.subrange(0, protocol_end(data)));
    } else {
        assert(dcep_bytes(m) =~= data.subrange(0, 1));
    }
}

} // verus!
