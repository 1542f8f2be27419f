use vstd::prelude::*;
use image::buffer::ConvertBuffer;
use crate::common::Color;
use crate::plane::Plane;
use crate::rgba::{colors_from_rgba, rgb_pixel_at, rgba_pixel_at};

verus! {

/// What handing a camera frame to the engine's single-slot channel did.
#[derive(Clone, Copy, Debug, PartialEq, Eq, Structural)]
pub enum CamSend {
    Sent,
    /// The engine has not taken the previous frame: this one is dropped.
    Full,
    /// The engine side is gone.
    Disconnected,
}

/// Whether the camera loop goes on after a send: the producer drops frames
/// rather than wait, and stops only when the channel is closed.
pub fn cam_loop_continues(outcome: CamSend) -> (r: bool)
    ensures
        r == !(outcome is Disconnected),
{
    match outcome {
        CamSend::Disconnected => false,
        _ => true,
    }
}

/// Sequence of RGBA bytes that `rgb` becomes for `n` pixels: each pixel's
/// three channels, then an opaque alpha.
pub open spec fn rgba_expansion_of(rgba: Seq<u8>, rgb: Seq<u8>, n: nat) -> bool {
    &&& rgba.len() == 4 * n
    &&& forall|i: int| 0 <= i < n ==> #[trigger] rgba_pixel_at(rgba, i) == rgb_pixel_at(rgb, i)
}

/// Relies on image's `ImageBuffer::from_raw`, which accepts a buffer of at
/// least three bytes per pixel (and returns `None` otherwise), and on its
/// `ConvertBuffer::convert` from `Rgb<u8>` to `Rgba<u8>`, which copies each
/// pixel's three channels and sets alpha to 255. `ImageBuffer::new` inside
/// the conversion panics when four bytes per pixel overflow `usize`, which
/// `requires` rules out.
#[verifier::external_body]
fn rgb_to_rgba(width: u32, height: u32, rgb: Vec<u8>) -> (r: Option<Vec<u8>>)
    requires
        4 * width * height <= usize::MAX,
    ensures
        r is Some <==> 3 * width * height <= rgb@.len(),
        r matches Some(v) ==> rgba_expansion_of(v@, rgb@, (width * height) as nat),
{
    match image::ImageBuffer::<image::Rgb<u8>, Vec<u8>>::from_raw(width, height, rgb) {
        Some(img) => {
            let out: image::RgbaImage = img.convert();
            Some(out.into_raw())
        },
        None => None,
    }
}

/// A camera frame of RGB bytes as an opaque color plane: `None` when the
/// buffer is short of three bytes per pixel or the plane would not fit in
/// memory indices. Bytes past the last pixel are ignored.
pub fn convert(width: u32, height: u32, rgb: Vec<u8>) -> (r: Option<Plane<Color>>)
    ensures
        r is Some <==> 3 * width * height <= rgb@.len() && 4 * width * height <= usize::MAX,
        r matches Some(p) ==> {
            &&& p@.width == width
            &&& p@.height == height
            &&& p@.cells.len() == width * height
            &&& forall|i: int|
                0 <= i < width * height ==> #[trigger] p@.cells[i] == rgb_pixel_at(rgb@, i)
        },
{
    assert(4 * width * height <= 4 * (u32::MAX as int) * (u32::MAX as int)) by (nonlinear_arith)
        requires
            width <= u32::MAX,
            height <= u32::MAX,
    ;
    assert(4 * width * height == 4 * (width * height)) by (nonlinear_arith);
    assert(3 * width * height == 3 * (width * height)) by (nonlinear_arith);
    if 4u128 * width as u128 * height as u128 > usize::MAX as u128 {
        return None;
    }
    let ghost input = rgb@;
    let bytes = match rgb_to_rgba(width, height, rgb) {
        Some(b) => b,
        None => {
            return None;
        },
    };
    let r = colors_from_rgba(width, height, &bytes);
    proof {
        if r is Some {
            let p = r->0;
            assert forall|i: int| 0 <= i < width * height implies #[trigger] p@.cells[i]
                == rgb_pixel_at(input, i) by {
                assert(rgba_pixel_at(bytes@, i) == rgb_pixel_at(input, i));
            }
        }
    }
    r
}

} // verus!
