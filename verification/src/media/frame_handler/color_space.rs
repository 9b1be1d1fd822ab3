//! Conversions between interleaved RGB frames and planar YUV 4:2:0 images
//! (BT.709, limited range), done by the `yuv` crate.
use crate::media::frame_handler::error::FrameError;
use crate::media::frame_handler::frame::Frame;
use vstd::prelude::*;

verus! {

/// A planar YUV image: a luma plane and two chroma planes, each with the
/// number of bytes per row.
pub struct YuvImage {
    pub y_plane: Vec<u8>,
    pub y_stride: u32,
    pub u_plane: Vec<u8>,
    pub u_stride: u32,
    pub v_plane: Vec<u8>,
    pub v_stride: u32,
    pub width: u32,
    pub height: u32,
}

/// The abstract content of a [`YuvImage`].
pub ghost struct YuvImageView {
    pub y_plane: Seq<u8>,
    pub y_stride: u32,
    pub u_plane: Seq<u8>,
    pub u_stride: u32,
    pub v_plane: Seq<u8>,
    pub v_stride: u32,
    pub width: u32,
    pub height: u32,
}

impl View for YuvImage {
    type V = YuvImageView;

    open spec fn view(&self) -> YuvImageView {
        YuvImageView {
            y_plane: self.y_plane@,
            y_stride: self.y_stride,
            u_plane: self.u_plane@,
            u_stride: self.u_stride,
            v_plane: self.v_plane@,
            v_stride: self.v_stride,
            width: self.width,
            height: self.height,
        }
    }
}

/// The width or height of a chroma plane of a 4:2:0 image: half the luma
/// size, rounded up.
pub open spec fn chroma_size(n: u32) -> int {
    (n as int + 1) / 2
}

/// Whether an interleaved RGB buffer of `len` bytes with rows `stride`
/// bytes apart passes `yuv`'s checks for a `width` x `height` image
/// (`check_rgba_destination`): a positive size, `3 * width * height` within
/// `isize`, a stride of at least one row and enough bytes for the rows.
pub open spec fn rgb_buffer_fits(len: int, stride: u32, width: u32, height: u32) -> bool {
    &&& width > 0
    &&& height > 0
    &&& 3 * width as int * height as int <= isize::MAX
    &&& stride as int >= 3 * width as int
    &&& len >= stride as int * (height as int - 1) + 3 * width as int
}

/// Whether a plane of `len` bytes with rows `stride` bytes apart holds
/// `rows` rows of `row` bytes, with `stride * rows` within `isize` (the
/// checks of `check_y8_channel` and `check_chroma_channel`).
pub open spec fn plane_fits(len: int, stride: u32, row: int, rows: int) -> bool {
    &&& stride as int >= row
    &&& stride as int * rows <= isize::MAX
    &&& len >= stride as int * (rows - 1) + row
}

/// Whether the planes of a 4:2:0 image pass `yuv`'s checks: a luma plane of
/// `height` rows of `width` bytes and two chroma planes of half as many
/// rows of half as many bytes, rounded up.
pub open spec fn yuv420_planes_fit(img: YuvImageView) -> bool {
    &&& plane_fits(img.y_plane.len() as int, img.y_stride, img.width as int, img.height as int)
    &&& plane_fits(
        img.u_plane.len() as int,
        img.u_stride,
        chroma_size(img.width),
        chroma_size(img.height),
    )
    &&& plane_fits(
        img.v_plane.len() as int,
        img.v_stride,
        chroma_size(img.width),
        chroma_size(img.height),
    )
}

/// Calls `yuv::rgb_to_yuv420` (BT.709, limited range, balanced mode) into
/// an image that `YuvPlanarImageMut::alloc` made for 4:2:0. Claimed of it:
/// the image has the requested size, a luma stride equal to the width and
/// chroma planes of half the size rounded up (what `alloc` allocates); and
/// it fails exactly when the RGB buffer does not pass the checks of
/// `check_rgba_destination` (the planes that `alloc` makes always pass
/// theirs, and no other step fails). The plane bytes are not
/// claimed: `yuv` picks an AVX2, SSE4.1 or plain code path on the running
/// machine, and these round differently.
#[verifier::external_body]
fn yuv_rgb_to_yuv420(rgb: &[u8], width: u32, height: u32, rgb_stride: u32) -> (r: Result<
    YuvImage,
    String,
>)
    requires
        width as int * height as int <= usize::MAX,
        rgb_stride as int * height as int <= usize::MAX,
    ensures
        r is Ok <==> rgb_buffer_fits(rgb@.len() as int, rgb_stride, width, height),
        r matches Ok(img) ==> {
            &&& img.width == width
            &&& img.height == height
            &&& img.y_stride == width
            &&& img.u_stride == chroma_size(width)
            &&& img.v_stride == chroma_size(width)
            &&& img.y_plane@.len() == width as int * height as int
            &&& img.u_plane@.len() == chroma_size(width) * chroma_size(height)
            &&& img.v_plane@.len() == chroma_size(width) * chroma_size(height)
        },
{
    let mut img = yuv::YuvPlanarImageMut::alloc(width, height, yuv::YuvChromaSubsampling::Yuv420);
    let (range, matrix) = (yuv::YuvRange::Limited, yuv::YuvStandardMatrix::Bt709);
    match yuv::rgb_to_yuv420(&mut img, rgb, rgb_stride, range, matrix, yuv::YuvConversionMode::Balanced) {
        Ok(()) => Ok(YuvImage {
            y_plane: img.y_plane.borrow().to_vec(), y_stride: img.y_stride,
            u_plane: img.u_plane.borrow().to_vec(), u_stride: img.u_stride,
            v_plane: img.v_plane.borrow().to_vec(), v_stride: img.v_stride,
            width: img.width, height: img.height,
        }),
        Err(e) => Err(e.to_string()),
    }
}

/// Converts an RGB frame (three bytes per pixel, rows without padding) to
/// a YUV 4:2:0 image of the frame's size, with a luma stride equal to the
/// width and chroma planes of half the size rounded up. It succeeds exactly
/// when the size is positive, `3 * width * height` fits in `isize` and the
/// frame holds at least that many bytes. The frame's
/// dimensions are taken modulo 2^32, as a cast to `u32` does; a conversion
/// error becomes `EncodingError`. The plane bytes depend on the code path
/// that `yuv` picks on the running machine.
pub fn rgb_to_yuv420(rgb_frame: &Frame) -> (r: Result<YuvImage, FrameError>)
    requires
        3 * (rgb_frame.width as u32) as int <= u32::MAX,
        3 * (rgb_frame.width as u32) as int * (rgb_frame.height as u32) as int <= usize::MAX,
    ensures
        r is Ok <==> {
            let (w, h) = (rgb_frame.width as u32, rgb_frame.height as u32);
            &&& w > 0
            &&& h > 0
            &&& 3 * w as int * h as int <= isize::MAX
            &&& rgb_frame.data@.len() >= 3 * w as int * h as int
        },
        match r {
            Ok(img) => {
                let (w, h) = (rgb_frame.width as u32, rgb_frame.height as u32);
                &&& img.width == w
                &&& img.height == h
                &&& img.y_stride == w
                &&& img.u_stride == chroma_size(w)
                &&& img.v_stride == chroma_size(w)
                &&& img.y_plane@.len() == w as int * h as int
                &&& img.u_plane@.len() == chroma_size(w) * chroma_size(h)
                &&& img.v_plane@.len() == chroma_size(w) * chroma_size(h)
            },
            Err(e) => e is EncodingError,
        },
{
    let width = rgb_frame.width as u32;
    let height = rgb_frame.height as u32;
    let stride = width * 3;
    proof {
        assert((stride as int) * (height as int - 1) + 3 * width as int == 3 * width as int
            * height as int) by (nonlinear_arith)
            requires
                stride == 3 * width,
        ;
        assert(width as int * height as int <= 3 * width as int * height as int) by (
        nonlinear_arith);
    }
    match yuv_rgb_to_yuv420(rgb_frame.data.as_slice(), width, height, stride) {
        Ok(img) => Ok(img),
        Err(e) => Err(FrameError::EncodingError(e)),
    }
}

/// Calls `yuv::yuv420_to_rgb` (BT.709, limited range) into a zeroed buffer
/// of `rgb_len` bytes. Claimed of it: the buffer keeps its length, and the
/// call succeeds exactly when the buffer passes the checks of
/// `check_rgba_destination` and the planes those of `check_y8_channel` and
/// `check_chroma_channel` (no other step fails). The
/// bytes are not claimed: `yuv` picks an AVX2, SSE4.1 or plain code path on
/// the running machine, and these round differently.
#[verifier::external_body]
fn yuv_yuv420_to_rgb(img: &YuvImage, rgb_len: usize, rgb_stride: u32) -> (r: Result<Vec<u8>, String>)
    requires
        rgb_stride as int * img.height as int <= usize::MAX,
    ensures
        r matches Ok(rgb) ==> rgb@.len() == rgb_len,
        r is Ok <==> (rgb_buffer_fits(rgb_len as int, rgb_stride, img.width, img.height)
            && yuv420_planes_fit(img@)),
{
    let planar = yuv::YuvPlanarImage {
        y_plane: img.y_plane.as_slice(), y_stride: img.y_stride,
        u_plane: img.u_plane.as_slice(), u_stride: img.u_stride,
        v_plane: img.v_plane.as_slice(), v_stride: img.v_stride,
        width: img.width, height: img.height,
    };
    let mut rgb = vec![0u8; rgb_len];
    let (range, matrix) = (yuv::YuvRange::Limited, yuv::YuvStandardMatrix::Bt709);
    match yuv::yuv420_to_rgb(&planar, &mut rgb, rgb_stride, range, matrix) {
        Ok(()) => Ok(rgb),
        Err(e) => Err(e.to_string()),
    }
}

/// Whether a picture converts to RGB: a positive size, rows of
/// `3 * width` bytes within `u32`, `3 * width * height` within `isize`, and
/// planes that pass `yuv`'s checks.
pub open spec fn rgb_conversion_fits(img: YuvImageView) -> bool {
    &&& img.width > 0
    &&& img.height > 0
    &&& 3 * img.width as int <= u32::MAX
    &&& 3 * img.width as int * img.height as int <= isize::MAX
    &&& yuv420_planes_fit(img)
}

/// Converts a YUV 4:2:0 image to RGB, three bytes per pixel and rows
/// without padding; `None` when the row size `3 * width` does not fit in a
/// `u32` or the buffer size `3 * width * height` not in a `usize`. Otherwise
/// it succeeds exactly when the size is positive, the buffer size fits in
/// `isize` and the planes pass `yuv`'s checks. The bytes depend on the code
/// path that `yuv` picks on the running machine.
pub fn yuv420_to_rgb(img: &YuvImage) -> (r: Option<Result<Vec<u8>, String>>)
    ensures
        match r {
            None => 3 * img.width as int * img.height as int > usize::MAX || 3 * img.width as int
                > u32::MAX,
            Some(res) => {
                let len = 3 * img.width as int * img.height as int;
                &&& len <= usize::MAX
                &&& res matches Ok(rgb) ==> rgb@.len() == len
                &&& res is Ok <==> rgb_conversion_fits(img@)
            },
        },
{
    let w = img.width as usize;
    let h = img.height as usize;
    let stride = match img.width.checked_mul(3) {
        Some(s) => s,
        None => {
            return None;
        },
    };
    let len = match w.checked_mul(h) {
        Some(p) => match p.checked_mul(3) {
            Some(l) => l,
            None => {
                proof {
                    assert(3 * img.width as int * img.height as int == 3 * (w as int * h as int))
                        by (nonlinear_arith)
                        requires
                            w == img.width,
                            h == img.height,
                    ;
                }
                return None;
            },
        },
        None => {
            proof {
                assert(3 * img.width as int * img.height as int >= w as int * h as int) by (
                nonlinear_arith)
                    requires
                        w == img.width,
                        h == img.height,
                ;
            }
            return None;
        },
    };
    proof {
        assert(len as int == 3 * img.width as int * img.height as int) by (nonlinear_arith)
            requires
                len as int == (w as int * h as int) * 3,
                w == img.width,
                h == img.height,
        ;
        assert(stride as int * img.height as int == len as int) by (nonlinear_arith)
            requires
                stride == 3 * img.width,
                len as int == 3 * img.width as int * img.height as int,
        ;
        assert((stride as int) * (img.height as int - 1) + 3 * img.width as int == len as int)
            by (nonlinear_arith)
            requires
                stride == 3 * img.width,
                len as int == 3 * img.width as int * img.height as int,
        ;
    }
    Some(yuv_yuv420_to_rgb(img, len, stride))
}

} // verus!
