//! H.264 encoding with OpenH264, and the splitting of an encoded frame into
//! chunks that fit in one datagram.
use crate::media::frame_handler::color_space::YuvImage;
use crate::media::frame_handler::encoded_frame::EncodedFrame;
use crate::media::frame_handler::error::FrameError;
use openh264::encoder::Encoder as OpenH264Encoder;
use openh264::encoder::FrameType;
use openh264::formats::YUVSlices;
use vstd::prelude::*;

verus! {

/// The chunks of `data`, in order: every chunk holds `max_chunk_size`
/// bytes except the last, which holds the rest.
pub open spec fn chunks_of(data: Seq<u8>, max_chunk_size: nat) -> Seq<Seq<u8>>
    decreases data.len(),
{
    if data.len() == 0 || max_chunk_size == 0 {
        Seq::empty()
    } else if data.len() <= max_chunk_size {
        seq![data]
    } else {
        seq![data.subrange(0, max_chunk_size as int)] + chunks_of(
            data.subrange(max_chunk_size as int, data.len() as int),
            max_chunk_size,
        )
    }
}

/// The concatenation of a list of byte strings.
pub open spec fn concat(chunks: Seq<Seq<u8>>) -> Seq<u8>
    decreases chunks.len(),
{
    if chunks.len() == 0 {
        Seq::empty()
    } else {
        chunks[0] + concat(chunks.drop_first())
    }
}

/// The chunks of the bytes starting at `from`.
proof fn lemma_chunks_step(data: Seq<u8>, from: int, max_chunk_size: nat)
    requires
        0 <= from < data.len(),
        max_chunk_size > 0,
    ensures
        chunks_of(data.subrange(from, data.len() as int), max_chunk_size) == seq![
            data.subrange(from, if from + max_chunk_size < data.len() { from + max_chunk_size } else { data.len() as int }),
        ] + if from + max_chunk_size < data.len() {
            chunks_of(data.subrange(from + max_chunk_size, data.len() as int), max_chunk_size)
        } else {
            Seq::empty()
        },
{
    let rest = data.subrange(from, data.len() as int);
    if from + max_chunk_size < data.len() {
        assert(rest.subrange(0, max_chunk_size as int) =~= data.subrange(from, from + max_chunk_size));
        assert(rest.subrange(max_chunk_size as int, rest.len() as int) =~= data.subrange(
            from + max_chunk_size,
            data.len() as int,
        ));
    } else {
        assert(seq![rest] + Seq::<Seq<u8>>::empty() =~= seq![rest]);
    }
}

/// Splits the encoded bytes of a frame into chunks of at most
/// `max_chunk_size` bytes, as `slice::chunks` does.
pub fn generate_chunks_from_bitstream(nalus: &[u8], max_chunk_size: usize) -> (r: Vec<Vec<u8>>)
    requires
        max_chunk_size > 0,
    ensures
        r@.map_values(|c: Vec<u8>| c@) == chunks_of(nalus@, max_chunk_size as nat),
{
    let mut chunks: Vec<Vec<u8>> = Vec::new();
    let mut from: usize = 0;
    let ghost data = nalus@;
    proof {
        assert(data.subrange(0, data.len() as int) =~= data);
        assert(chunks@.map_values(|c: Vec<u8>| c@) + chunks_of(data, max_chunk_size as nat)
            =~= chunks_of(data, max_chunk_size as nat));
    }
    while from < nalus.len()
        invariant
            from <= nalus@.len(),
            data == nalus@,
            max_chunk_size > 0,
            chunks@.map_values(|c: Vec<u8>| c@) + chunks_of(
                data.subrange(from as int, data.len() as int),
                max_chunk_size as nat,
            ) == chunks_of(data, max_chunk_size as nat),
        decreases nalus@.len() - from,
    {
        let end = if nalus.len() - from > max_chunk_size {
            from + max_chunk_size
        } else {
            nalus.len()
        };
        let mut chunk: Vec<u8> = Vec::new();
        let mut i = from;
        while i < end
            invariant
                from <= i <= end <= nalus@.len(),
                chunk@ == nalus@.subrange(from as int, i as int),
            decreases end - i,
        {
            chunk.push(nalus[i]);
            i = i + 1;
            assert(chunk@ =~= nalus@.subrange(from as int, i as int));
        }
        proof {
            lemma_chunks_step(data, from as int, max_chunk_size as nat);
        }
        let ghost before = chunks@.map_values(|c: Vec<u8>| c@);
        chunks.push(chunk);
        proof {
            assert(chunks@.map_values(|c: Vec<u8>| c@) =~= before.push(
                data.subrange(from as int, end as int),
            ));
            if end < data.len() {
                assert(before.push(data.subrange(from as int, end as int)) + chunks_of(
                    data.subrange(end as int, data.len() as int),
                    max_chunk_size as nat,
                ) =~= before + (seq![data.subrange(from as int, end as int)] + chunks_of(
                    data.subrange(end as int, data.len() as int),
                    max_chunk_size as nat,
                )));
            } else {
                assert(data.subrange(end as int, data.len() as int) =~= Seq::<u8>::empty());
                assert(before.push(data.subrange(from as int, end as int)) + chunks_of(
                    data.subrange(end as int, data.len() as int),
                    max_chunk_size as nat,
                ) =~= before + (seq![data.subrange(from as int, end as int)]
                    + Seq::<Seq<u8>>::empty()));
            }
        }
        from = end;
    }
    proof {
        assert(data.subrange(from as int, data.len() as int) =~= Seq::<u8>::empty());
        assert(chunks@.map_values(|c: Vec<u8>| c@) + Seq::<Seq<u8>>::empty() =~= chunks@.map_values(
            |c: Vec<u8>| c@,
        ));
    }
    chunks
}

/// The chunks put back together give the bytes they were cut from; none is
/// empty and none holds more than `max_chunk_size` bytes.
pub proof fn lemma_chunks_concat(data: Seq<u8>, max_chunk_size: nat)
    requires
        max_chunk_size > 0,
    ensures
        concat(chunks_of(data, max_chunk_size)) == data,
        forall|i: int|
            0 <= i < chunks_of(data, max_chunk_size).len() ==> 0 < (#[trigger] chunks_of(
                data,
                max_chunk_size,
            )[i]).len() <= max_chunk_size,
        chunks_of(data, max_chunk_size).len() == (data.len() + max_chunk_size - 1)
            / max_chunk_size as int,
    decreases data.len(),
{
    let c = chunks_of(data, max_chunk_size);
    if data.len() == 0 {
        assert(concat(c) =~= data);
        let m = max_chunk_size as int;
        assert((0 + m - 1) / m == 0) by (nonlinear_arith)
            requires
                m > 0,
        ;
    } else if data.len() <= max_chunk_size {
        assert(c.drop_first() =~= Seq::<Seq<u8>>::empty());
        assert(concat(c.drop_first()) =~= Seq::<u8>::empty());
        assert(c[0] == data);
        assert(concat(c) =~= data);
        assert((data.len() + max_chunk_size - 1) / max_chunk_size as int == 1) by (nonlinear_arith)
            requires
                0 < data.len() <= max_chunk_size,
        ;
    } else {
        let rest = data.subrange(max_chunk_size as int, data.len() as int);
        lemma_chunks_concat(rest, max_chunk_size);
        assert(c.drop_first() =~= chunks_of(rest, max_chunk_size));
        assert(concat(c) =~= data.subrange(0, max_chunk_size as int) + rest);
        assert(data.subrange(0, max_chunk_size as int) + rest =~= data);
        assert forall|i: int| 0 <= i < c.len() implies 0 < (#[trigger] c[i]).len()
            <= max_chunk_size by {
            if i > 0 {
                assert(c[i] == chunks_of(rest, max_chunk_size)[i - 1]);
            }
        }
        let n = data.len() as int;
        let m = max_chunk_size as int;
        assert((n + m - 1) / m == (n - m + m - 1) / m + 1) by (nonlinear_arith)
            requires
                m > 0,
                n > m,
        ;
    }
}

#[verifier::external_type_specification]
#[verifier::external_body]
pub struct ExOpenH264Encoder(OpenH264Encoder);

/// Whether a YUV 4:2:0 image has the plane sizes and strides that
/// `YUVSlices::new` checks: strides at least the row width (half of it for
/// chroma), a luma plane of `height` rows and chroma planes of `height / 2`
/// rows.
pub open spec fn yuv_slices_fit(img: &YuvImage) -> bool {
    &&& img.y_stride >= img.width
    &&& img.u_stride >= img.width / 2
    &&& img.v_stride >= img.width / 2
    &&& img.height as int * img.y_stride as int == img.y_plane@.len()
    &&& (img.height / 2) as int * img.u_stride as int == img.u_plane@.len()
    &&& (img.height / 2) as int * img.v_stride as int == img.v_plane@.len()
}

/// Calls `openh264::encoder::Encoder::encode` on the planes of `img` (as
/// `YUVSlices`, whose checks the `requires` states) and copies the
/// bitstream, with whether it is an I or IDR frame. Nothing is claimed of
/// the result: it depends on the frames encoded before.
#[verifier::external_body]
fn openh264_encode(encoder: &mut OpenH264Encoder, img: &YuvImage) -> (r: Result<(Vec<u8>, bool), String>)
    requires
        yuv_slices_fit(img),
{
    let dims = (img.width as usize, img.height as usize);
    let strides = (img.y_stride as usize, img.u_stride as usize, img.v_stride as usize);
    let source = YUVSlices::new((&img.y_plane, &img.u_plane, &img.v_plane), dims, strides);
    match encoder.encode(&source) {
        Ok(bs) => Ok((bs.to_vec(), matches!(bs.frame_type(), FrameType::I | FrameType::IDR))),
        Err(e) => Err(e.to_string()),
    }
}

/// A basic H.264 video encoder using the `OpenH264` library: it compresses
/// YUV frames into chunks of at most `max_chunk_size` bytes, ready to be
/// sent as datagrams.
pub struct Encoder {
    encoder: OpenH264Encoder,
    max_chunk_size: usize,
}

impl Encoder {
    /// An encoder that splits its output into chunks of at most
    /// `max_chunk_size` bytes.
    pub fn with_encoder(encoder: OpenH264Encoder, max_chunk_size: usize) -> (r: Self)
        ensures
            r.max_chunk_size() == max_chunk_size,
    {
        Encoder { encoder, max_chunk_size }
    }

    /// The largest chunk this encoder produces.
    pub closed spec fn max_chunk_size(&self) -> usize {
        self.max_chunk_size
    }

    /// Encodes a YUV frame captured at `frame_time` and splits the
    /// bitstream into chunks; an encoder failure is an `EncodingError` with
    /// its text.
    pub fn encode(&mut self, yuv: &YuvImage, frame_time: u128) -> (r: Result<EncodedFrame, FrameError>)
        requires
            yuv_slices_fit(yuv),
            old(self).max_chunk_size() > 0,
        ensures
            final(self).max_chunk_size() == old(self).max_chunk_size(),
            match r {
                Ok(f) => {
                    &&& exists|bits: Seq<u8>|
                        f.chunks@.map_values(|c: Vec<u8>| c@) == #[trigger] chunks_of(
                            bits,
                            old(self).max_chunk_size() as nat,
                        )
                    &&& f.width == yuv.width
                    &&& f.height == yuv.height
                    &&& f.frame_time == frame_time
                },
                Err(e) => e is EncodingError,
            },
    {
        match openh264_encode(&mut self.encoder, yuv) {
            Ok((bits, is_i_frame)) => {
                let chunks = generate_chunks_from_bitstream(bits.as_slice(), self.max_chunk_size);
                Ok(
                    EncodedFrame {
                        chunks,
                        width: yuv.width as usize,
                        height: yuv.height as usize,
                        is_i_frame,
                        frame_time,
                    },
                )
            },
            Err(e) => Err(FrameError::EncodingError(e)),
        }
    }
}

} // verus!
