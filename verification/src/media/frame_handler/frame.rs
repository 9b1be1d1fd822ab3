//! A raw video frame and its byte layout: the width and height as
//! little-endian `u32`s, then the pixel bytes.
use crate::media::frame_handler::error::FrameError;
use crate::wire::{from_le32, le32, lemma_le32_decode, lemma_le32_encode, push_all, push_le32, read_le32, copy_tail};
use vstd::prelude::*;

verus! {

/// Length of the header that precedes the pixel bytes.
pub const FRAME_HEADER_LEN: usize = 8;

/// An in-memory video frame used by the frame handler.
///
/// `Frame` represents raw (decoded) frame data or intermediate
/// conversions (for example, RGB data produced from YUV input). The
/// struct carries the pixel bytes and the frame dimensions.
#[derive(Clone, Debug, PartialEq)]
pub struct Frame {
    /// Raw pixel bytes.
    pub data: Vec<u8>,
    /// Width in pixels of the frame data.
    pub width: usize,
    /// Height in pixels of the frame data.
    pub height: usize,
}

/// The abstract content of a [`Frame`].
pub ghost struct FrameView {
    pub data: Seq<u8>,
    pub width: nat,
    pub height: nat,
}

impl View for Frame {
    type V = FrameView;

    open spec fn view(&self) -> FrameView {
        FrameView { data: self.data@, width: self.width as nat, height: self.height as nat }
    }
}

/// Whether both dimensions fit in the 32 bits of the layout.
pub open spec fn frame_fits(f: FrameView) -> bool {
    f.width <= u32::MAX && f.height <= u32::MAX
}

/// The bytes of a frame whose dimensions fit.
pub open spec fn frame_bytes(f: FrameView) -> Seq<u8> {
    le32(f.width as u32) + le32(f.height as u32) + f.data
}

/// The frame that bytes describe: at least the header is needed.
pub open spec fn frame_parse(b: Seq<u8>) -> Option<FrameView> {
    if b.len() < 8 {
        None
    } else {
        Some(
            FrameView {
                width: from_le32(b, 0) as nat,
                height: from_le32(b, 4) as nat,
                data: b.subrange(8, b.len() as int),
            },
        )
    }
}

impl Frame {
    /// Try to create a `Frame` from a byte buffer produced by
    /// `to_bytes`. Returns `None` if the buffer is shorter than the header.
    pub fn from_bytes(bytes: &[u8]) -> (r: Option<Self>)
        ensures
            match r {
                Some(f) => frame_parse(bytes@) == Some(f@),
                None => frame_parse(bytes@) is None,
            },
    {
        if bytes.len() < FRAME_HEADER_LEN {
            return None;
        }
        let width = read_le32(bytes, 0);
        let height = read_le32(bytes, 4);
        let data = copy_tail(bytes, FRAME_HEADER_LEN);
        Some(Frame { data, width: width as usize, height: height as usize })
    }

    /// Serialize the `Frame` into bytes in the same layout consumed by
    /// `from_bytes`; a dimension above `u32::MAX` cannot be written.
    pub fn to_bytes(&self) -> (r: Result<Vec<u8>, FrameError>)
        ensures
            match r {
                Ok(b) => frame_fits(self@) && b@ == frame_bytes(self@),
                Err(e) => !frame_fits(self@) && e == FrameError::DimensionConversionError,
            },
    {
        if self.width > u32::MAX as usize || self.height > u32::MAX as usize {
            return Err(FrameError::DimensionConversionError);
        }
        let mut buf: Vec<u8> = Vec::new();
        push_le32(&mut buf, self.width as u32);
        push_le32(&mut buf, self.height as u32);
        push_all(&mut buf, self.data.as_slice());
        proof {
            assert(buf@ =~= frame_bytes(self@));
        }
        Ok(buf)
    }
}

/// A frame whose dimensions fit reads back from its bytes.
pub proof fn lemma_frame_roundtrip(f: FrameView)
    requires
        frame_fits(f),
    ensures
        frame_parse(frame_bytes(f)) == Some(f),
{
    let b = frame_bytes(f);
    assert(b.subrange(0, 4) =~= le32(f.width as u32));
    assert(b.subrange(4, 8) =~= le32(f.height as u32));
    lemma_le32_decode(f.width as u32, b, 0);
    lemma_le32_decode(f.height as u32, b, 4);
    assert(b.subrange(8, b.len() as int) =~= f.data);
}

/// Bytes that describe a frame are exactly the bytes of that frame.
pub proof fn lemma_frame_reencode(b: Seq<u8>)
    requires
        frame_parse(b) is Some,
    ensures
        frame_fits(frame_parse(b)->0),
        frame_bytes(frame_parse(b)->0) == b,
{
    lemma_le32_encode(b, 0);
    lemma_le32_encode(b, 4);
    assert(frame_bytes(frame_parse(b)->0) =~= b);
}

} // verus!
