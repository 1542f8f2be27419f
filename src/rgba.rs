use vstd::prelude::*;
use crate::common::Color;
use crate::plane::Plane;

verus! {

/// The i-th pixel of a buffer of RGBA bytes.
pub open spec fn rgba_pixel_at(bytes: Seq<u8>, i: int) -> Color {
    Color { r: bytes[4 * i], g: bytes[4 * i + 1], b: bytes[4 * i + 2], a: bytes[4 * i + 3] }
}

/// The i-th pixel of a buffer of RGB bytes, made opaque.
pub open spec fn rgb_pixel_at(bytes: Seq<u8>, i: int) -> Color {
    Color { r: bytes[3 * i], g: bytes[3 * i + 1], b: bytes[3 * i + 2], a: 255 }
}

/// The plane's pixels as RGBA bytes, four per pixel in row-major order: the
/// layout of the kernel's images and of the display's texture.
pub fn rgba_bytes(plane: &Plane<Color>) -> (r: Vec<u8>)
    requires
        4 * plane@.cells.len() <= usize::MAX,
    ensures
        r@.len() == 4 * plane@.cells.len(),
        forall|i: int| 0 <= i < plane@.cells.len() ==> #[trigger] rgba_pixel_at(r@, i) == plane@.cells[i],
{
    let n = plane.cell_count();
    let mut out: Vec<u8> = Vec::with_capacity(4 * n);
    let mut i: usize = 0;
    while i < n
        invariant
            i <= n,
            n == plane@.cells.len(),
            4 * n <= usize::MAX,
            out@.len() == 4 * i,
            forall|p: int| 0 <= p < i ==> #[trigger] rgba_pixel_at(out@, p) == plane@.cells[p],
        decreases n - i,
    {
        let c = plane.cell(i);
        let ghost before = out@;
        out.push(c.r);
        out.push(c.g);
        out.push(c.b);
        out.push(c.a);
        assert forall|p: int| 0 <= p < i + 1 implies #[trigger] rgba_pixel_at(out@, p)
            == plane@.cells[p] by {
            if p < i {
                assert(rgba_pixel_at(before, p) == plane@.cells[p]);
            }
        }
        i = i + 1;
    }
    out
}

/// The plane of `width` by `height` pixels held in RGBA bytes, when there are
/// exactly four bytes per pixel.
pub fn colors_from_rgba(width: u32, height: u32, bytes: &Vec<u8>) -> (r: Option<Plane<Color>>)
    ensures
        r is Some <==> bytes@.len() == 4 * width * height,
        r matches Some(p) ==> {
            &&& p@.width == width
            &&& p@.height == height
            &&& p@.cells.len() == width * height
            &&& forall|i: int|
                0 <= i < width * height ==> #[trigger] p@.cells[i] == rgba_pixel_at(bytes@, i)
        },
{
    assert(4 * width * height <= 4 * (u32::MAX as int) * (u32::MAX as int)) by (nonlinear_arith)
        requires
            width <= u32::MAX,
            height <= u32::MAX,
    ;
    assert(4 * width * height == 4 * (width * height)) by (nonlinear_arith);
    let n4 = 4u128 * width as u128 * height as u128;
    if bytes.len() as u128 != n4 {
        return None;
    }
    let n = (width as u64 * height as u64) as usize;
    let mut cells: Vec<Color> = Vec::with_capacity(n);
    let mut i: usize = 0;
    while i < n
        invariant
            i <= n,
            4 * n == bytes@.len(),
            n == width * height,
            bytes@.len() <= usize::MAX,
            cells@.len() == i,
            forall|p: int| 0 <= p < i ==> #[trigger] cells@[p] == rgba_pixel_at(bytes@, p),
        decreases n - i,
    {
        let c = Color {
            r: bytes[4 * i],
            g: bytes[4 * i + 1],
            b: bytes[4 * i + 2],
            a: bytes[4 * i + 3],
        };
        cells.push(c);
        i = i + 1;
    }
    Plane::new(width, height, cells)
}

} // verus!
