//! Scaling of captured window pixels into preview images.
//!
//! A screen capture arrives as packed four-byte BGRA pixels. The
//! resampling itself is done by an outside resizer over plain byte
//! buffers; the size bookkeeping around the call and the BGRA-to-RGBA
//! channel swap afterwards are verified here.

use vstd::prelude::*;

verus! {

/// The byte sequence with the first and third channel of each four-byte
/// pixel exchanged: BGRA becomes RGBA. Bytes past the last whole pixel
/// keep their place.
pub open spec fn spec_swap_rb(s: Seq<u8>) -> Seq<u8> {
    Seq::new(
        s.len(),
        |i: int|
            if i % 4 == 0 && i + 3 < s.len() {
                s[i + 2]
            } else if i % 4 == 2 && i + 1 < s.len() {
                s[i - 2]
            } else {
                s[i]
            },
    )
}

/// Relies on `fast_image_resize::Resizer::resize` over `U8x4` images:
/// on success the returned buffer holds exactly the asked number of
/// four-byte destination pixels.
#[verifier::external_body]
fn resize_u8x4(
    src: &Vec<u8>,
    src_width: u32,
    src_height: u32,
    dst_width: u32,
    dst_height: u32,
) -> (r: Option<Vec<u8>>)
    requires
        src@.len() == src_width as int * src_height as int * 4,
        0 < src_width,
        0 < src_height,
        0 < dst_width,
        0 < dst_height,
        dst_width as int * dst_height as int * 4 <= usize::MAX,
    ensures
        r matches Some(out) ==> out@.len() == dst_width as int * dst_height as int * 4,
{
    let pixel = fast_image_resize::PixelType::U8x4;
    let buf = src.as_slice();
    let src_image = match fast_image_resize::images::ImageRef::new(src_width, src_height, buf, pixel) {
        Ok(image) => image,
        Err(_) => return None,
    };
    let mut dst_image = fast_image_resize::images::Image::new(dst_width, dst_height, pixel);
    match fast_image_resize::Resizer::new().resize(&src_image, &mut dst_image, None) {
        Ok(()) => Some(dst_image.into_vec()),
        Err(_) => None,
    }
}

/// Scales pixel buffers to preview size.
pub struct ImageResizer;

impl ImageResizer {
    /// Exchange the blue and red channel of every whole four-byte pixel
    /// in place.
    pub fn swap_channels(pixels: &mut Vec<u8>)
        ensures
            final(pixels)@ == spec_swap_rb(old(pixels)@),
    {
        let n = pixels.len();
        let mut i: usize = 0;
        while i + 3 < n
            invariant
                n == pixels@.len(),
                n == old(pixels)@.len(),
                i % 4 == 0,
                i <= n,
                forall|j: int| i <= j < n ==> pixels@[j] == old(pixels)@[j],
                forall|j: int| 0 <= j < i ==> pixels@[j] == spec_swap_rb(old(pixels)@)[j],
            decreases n - i,
        {
            let b = pixels[i];
            let r = pixels[i + 2];
            pixels[i] = r;
            pixels[i + 2] = b;
            proof {
                assert(forall|j: int|
                    0 <= j < i ==> pixels@[j] == spec_swap_rb(old(pixels)@)[j]);
                assert(pixels@[i as int] == spec_swap_rb(old(pixels)@)[i as int]);
                assert(pixels@[i as int + 1] == spec_swap_rb(old(pixels)@)[i as int + 1]);
                assert(pixels@[i as int + 2] == spec_swap_rb(old(pixels)@)[i as int + 2]);
                assert(pixels@[i as int + 3] == spec_swap_rb(old(pixels)@)[i as int + 3]);
            }
            i = i + 4;
        }
        proof {
            assert forall|j: int| 0 <= j < n implies pixels@[j] == spec_swap_rb(old(pixels)@)[j]
                by {
                if j >= i {
                    assert(pixels@[j] == old(pixels)@[j]);
                    assert(!(j % 4 == 0 && j + 3 < n));
                    if j % 4 == 2 && j + 1 < n {
                        assert(j != i && j != i + 1);
                        assert(j + 1 >= i + 3);
                        assert(false);
                    }
                }
            }
            assert(pixels@ =~= spec_swap_rb(old(pixels)@));
        }
    }

    /// Resize a packed BGRA capture to the destination size and hand
    /// the result back as RGBA. The source height follows from the
    /// buffer length and width; a source or destination without area,
    /// or a failing resampler, yields nothing.
    pub fn resize_bgra_pixels(source: (Vec<u8>, u32), destination: (u32, u32)) -> (r: Option<
        Vec<u8>,
    >)
        requires
            destination.0 as int * destination.1 as int * 4 <= usize::MAX,
        ensures
            r matches Some(out) ==> ({
                &&& out@.len() == destination.0 as int * destination.1 as int * 4
                &&& destination.0 > 0
                &&& destination.1 > 0
            }),
            source.1 == 0 ==> r is None,
            destination.0 == 0 || destination.1 == 0 ==> r is None,
            // a buffer shorter than one full row has no pixels to scale
            source.1 > 0 && (source.0@.len() as int / 4) / (source.1 as int) == 0 ==> r is None,
    {
        let (pixels, width) = source;
        let (dst_width, dst_height) = destination;
        if width == 0 || dst_width == 0 || dst_height == 0 {
            return None;
        }
        let height = (pixels.len() / 4) / (width as usize);
        if height == 0 {
            return None;
        }
        proof {
            assert(height as int <= pixels@.len() as int / 4 / width as int);
            assert(width as int * height as int * 4 <= pixels@.len()) by (nonlinear_arith)
                requires
                    height as int == pixels@.len() as int / 4 / width as int,
                    width as int > 0,
                    pixels@.len() >= 0,
            ;
        }
        let exact = (width as usize) * height * 4;
        let mut src = pixels;
        src.truncate(exact);
        proof {
            assert(width as int * height as int * 4 == exact as int);
            assert(src@.len() == exact as int);
        }
        if height > u32::MAX as usize {
            return None;
        }
        match resize_u8x4(&src, width, height as u32, dst_width, dst_height) {
            Some(mut out) => {
                ImageResizer::swap_channels(&mut out);
                Some(out)
            }
            None => None,
        }
    }
}

} // verus!
