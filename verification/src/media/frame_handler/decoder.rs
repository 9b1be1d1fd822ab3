//! H.264 decoding with OpenH264, then conversion of the picture to RGB.
use crate::media::frame_handler::color_space::{rgb_conversion_fits, yuv420_to_rgb, YuvImage};
use crate::media::frame_handler::error::FrameError;
use openh264::decoder::Decoder as OpenH264Decoder;
use openh264::formats::YUVSource;
use vstd::prelude::*;

verus! {

#[verifier::external_type_specification]
#[verifier::external_body]
pub struct ExOpenH264Decoder(OpenH264Decoder);

/// Calls `openh264::decoder::Decoder::new`. Nothing is claimed of it.
#[verifier::external_body]
fn openh264_decoder_new() -> (r: Result<OpenH264Decoder, ()>) {
    OpenH264Decoder::new().map_err(|_| ())
}

/// Calls `openh264::decoder::Decoder::decode` and copies the decoded
/// picture, if any, with its strides and dimensions. Nothing is claimed of
/// the result: it depends on the packets decoded before.
#[verifier::external_body]
fn openh264_decode(decoder: &mut OpenH264Decoder, packet: &[u8]) -> (r: Result<
    Option<YuvImage>,
    String,
>) {
    match decoder.decode(packet) {
        Ok(Some(yuv)) => {
            let ((w, h), (ys, us, vs)) = (yuv.dimensions(), yuv.strides());
            Ok(Some(YuvImage {
                y_plane: yuv.y().to_vec(), y_stride: ys as u32, u_plane: yuv.u().to_vec(),
                u_stride: us as u32, v_plane: yuv.v().to_vec(), v_stride: vs as u32,
                width: w as u32, height: h as u32,
            }))
        },
        Ok(None) => Ok(None),
        Err(e) => Err(e.to_string()),
    }
}

/// A basic H.264 video decoder using the `OpenH264` library.
///
/// Used on the receiving side of a video stream, after collecting and
/// reassembling the encoded packets of a frame.
pub struct Decoder {
    decoder: OpenH264Decoder,
}

impl Decoder {
    /// Creates a new H.264 decoder instance; fails with
    /// `DecoderInitializationError` when OpenH264 cannot create one.
    pub fn new() -> (r: Result<Self, FrameError>)
        ensures
            r matches Err(e) ==> e == FrameError::DecoderInitializationError,
    {
        match openh264_decoder_new() {
            Ok(decoder) => Ok(Decoder { decoder }),
            Err(()) => Err(FrameError::DecoderInitializationError),
        }
    }

    /// Decodes encoded H.264 data into RGB bytes (three per pixel) with
    /// the picture's width and height: what the decoder returns is turned
    /// into a frame as [`frame_of_decoded`] says. Data that yields no
    /// picture is an `EmptyFrameError`; a decoding or conversion failure is
    /// a `DecodingError` with its text. Which picture comes out depends on
    /// the frames decoded before, and its bytes on the code path that `yuv`
    /// picks on the running machine.
    pub fn decode_frame(&mut self, encoded_data: &[u8]) -> (r: Result<
        (Vec<u8>, usize, usize),
        FrameError,
    >)
        ensures
            match r {
                Ok((rgb, w, h)) => rgb@.len() == 3 * w * h && 0 < w <= u32::MAX && 0 < h
                    <= u32::MAX,
                Err(e) => e == FrameError::EmptyFrameError || e is DecodingError,
            },
    {
        let decoded = openh264_decode(&mut self.decoder, encoded_data);
        frame_of_decoded(decoded)
    }
}

/// The frame made of what the decoder returned: a decoder failure is a
/// `DecodingError` with its text and no picture an `EmptyFrameError`; a
/// picture becomes its RGB bytes (three per pixel) with its own width and
/// height when it converts (see [`rgb_conversion_fits`]), and a
/// `DecodingError` otherwise.
pub fn frame_of_decoded(decoded: Result<Option<YuvImage>, String>) -> (r: Result<
    (Vec<u8>, usize, usize),
    FrameError,
>)
    ensures
        match decoded {
            Err(e) => r matches Err(FrameError::DecodingError(m)) && m@ == e@,
            Ok(None) => r matches Err(FrameError::EmptyFrameError),
            Ok(Some(img)) => {
                &&& r is Ok <==> rgb_conversion_fits(img@)
                &&& r matches Ok((rgb, w, h)) ==> w == img.width && h == img.height && rgb@.len()
                    == 3 * w * h
                &&& r matches Err(e) ==> e is DecodingError
            },
        },
{
    match decoded {
        Ok(Some(img)) => match yuv420_to_rgb(&img) {
            Some(Ok(rgb)) => {
                let w = img.width as usize;
                let h = img.height as usize;
                Ok((rgb, w, h))
            },
            Some(Err(e)) => Err(FrameError::DecodingError(e)),
            None => Err(FrameError::DecodingError(String::from_str("frame too large"))),
        },
        Ok(None) => Err(FrameError::EmptyFrameError),
        Err(e) => Err(FrameError::DecodingError(e)),
    }
}

} // verus!
