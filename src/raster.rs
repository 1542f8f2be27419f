use vstd::prelude::*;
use crate::plane::{cell_at, lemma_cell_in_plane, Plane, PlaneView};

verus! {

/// Mask values above this mark a pixel as hot (filled).
pub const HOT_ABOVE: u8 = 127;

/// Whether (x, y) lies in the rectangle from (0, 0) to (width, height).
pub fn in_bounds(width: i64, height: i64, x: i64, y: i64) -> (r: bool)
    ensures
        r == (0 <= x < width && 0 <= y < height),
{
    x >= 0 && y >= 0 && x < width && y < height
}

/// The k-th neighbour offset in visiting order: dx outer, dy inner, both
/// running from -1 to 1.
pub open spec fn neighbor_offset(k: int) -> (int, int) {
    (k / 3 - 1, k % 3 - 1)
}

/// Whether the k-th neighbour of (x, y) is another pixel, inside the mask,
/// and not filled.
pub open spec fn is_empty_neighbor(mask: PlaneView<u8>, x: int, y: int, k: int) -> bool {
    let (dx, dy) = neighbor_offset(k);
    &&& !(dx == 0 && dy == 0)
    &&& mask.in_bounds(x + dx, y + dy)
    &&& mask.at(x + dx, y + dy) <= HOT_ABOVE
}

/// The empty neighbours among the first k, in visiting order.
pub open spec fn empty_neighbors(mask: PlaneView<u8>, x: int, y: int, k: nat) -> Seq<(u32, u32)>
    decreases k,
{
    if k == 0 {
        Seq::empty()
    } else {
        let prev = empty_neighbors(mask, x, y, (k - 1) as nat);
        let (dx, dy) = neighbor_offset(k - 1);
        if is_empty_neighbor(mask, x, y, k - 1) {
            prev.push(((x + dx) as u32, (y + dy) as u32))
        } else {
            prev
        }
    }
}

/// The up to eight neighbours of (x, y) that lie inside the mask and are not
/// filled, in the order dx = -1, 0, 1 (outer), dy = -1, 0, 1 (inner).
pub fn neighbors_empty(x: u32, y: u32, mask_filled: &Plane<u8>) -> (r: Vec<(u32, u32)>)
    ensures
        r@ == empty_neighbors(mask_filled@, x as int, y as int, 9),
{
    let xi = x as i64;
    let yi = y as i64;
    let w = mask_filled.width() as i64;
    let h = mask_filled.height() as i64;
    let mut neighbors: Vec<(u32, u32)> = Vec::new();
    let mut dx: i64 = -1;
    while dx < 2
        invariant
            -1 <= dx <= 2,
            xi == x,
            yi == y,
            w == mask_filled@.width,
            h == mask_filled@.height,
            0 <= w <= u32::MAX,
            0 <= h <= u32::MAX,
            neighbors@ == empty_neighbors(mask_filled@, x as int, y as int, ((dx + 1) * 3) as nat),
        decreases 2 - dx,
    {
        let mut dy: i64 = -1;
        while dy < 2
            invariant
                -1 <= dx < 2,
                -1 <= dy <= 2,
                xi == x,
                yi == y,
                w == mask_filled@.width,
                h == mask_filled@.height,
                0 <= w <= u32::MAX,
                0 <= h <= u32::MAX,
                neighbors@ == empty_neighbors(
                    mask_filled@,
                    x as int,
                    y as int,
                    ((dx + 1) * 3 + dy + 1) as nat,
                ),
            decreases 2 - dy,
        {
            let ghost k = (dx + 1) * 3 + dy + 1;
            assert(neighbor_offset(k) == (dx as int, dy as int)) by {
                assert(k / 3 == dx + 1 && k % 3 == dy + 1) by (nonlinear_arith)
                    requires
                        k == (dx + 1) * 3 + dy + 1,
                        0 <= dx + 1 < 3,
                        0 <= dy + 1 < 3,
                ;
            }
            let nx = xi + dx;
            let ny = yi + dy;
            let is_self = dx == 0 && dy == 0;
            if !is_self && in_bounds(w, h, nx, ny) {
                let v = mask_filled.get(nx as u32, ny as u32);
                if v <= HOT_ABOVE {
                    neighbors.push((nx as u32, ny as u32));
                }
            }
            dy = dy + 1;
        }
        dx = dx + 1;
    }
    neighbors
}

/// A row-major position inside a width-by-height plane has a row below the
/// height, and the plane has a positive width.
proof fn lemma_row_of(k: int, width: nat, height: nat)
    requires
        0 <= k < width * height,
    ensures
        width > 0,
        0 <= k / (width as int) < height,
        0 <= k % (width as int) < width,
{
    assert(width > 0) by (nonlinear_arith)
        requires
            0 <= k < width * height,
    ;
    assert(0 <= k / (width as int) < height) by (nonlinear_arith)
        requires
            0 <= k < width * height,
            width > 0,
    ;
}

/// The hot pixels among the first k of the score image, as (x, y, score):
/// the k-th score pixel goes with the k-th mask pixel, both in row-major order.
pub open spec fn hot_pixels(img: PlaneView<u16>, mask: PlaneView<u8>, k: nat) -> Seq<(u32, u32, u16)>
    decreases k,
{
    if k == 0 {
        Seq::empty()
    } else {
        let prev = hot_pixels(img, mask, (k - 1) as nat);
        let i = k - 1;
        if mask.cells[i] > HOT_ABOVE {
            prev.push(((i % (img.width as int)) as u32, (i / (img.width as int)) as u32, img.cells[i]))
        } else {
            prev
        }
    }
}

/// Number of pixel pairs the score image and the mask have in common.
pub open spec fn paired(img: PlaneView<u16>, mask: PlaneView<u8>) -> nat {
    if img.cells.len() < mask.cells.len() {
        img.cells.len()
    } else {
        mask.cells.len()
    }
}

pub open spec fn ascending_by_value(s: Seq<(u32, u32, u16)>) -> bool {
    forall|i: int, j: int| 0 <= i <= j < s.len() ==> #[trigger] s[i].2 <= #[trigger] s[j].2
}

/// Relies on std's `slice::sort_unstable_by_key`: afterwards the vector holds
/// the same elements, in ascending order of the key, here the third component.
#[verifier::external_body]
fn sort_by_value(v: &mut Vec<(u32, u32, u16)>)
    ensures
        final(v)@.to_multiset() == old(v)@.to_multiset(),
        ascending_by_value(final(v)@),
{
    v.sort_unstable_by_key(|&(_, _, px)| px);
}

/// The hot pixels of `mask` with their scores from `img`, sorted by score
/// (equal scores in no particular order).
pub fn sort_pixels_with_mask(img: &Plane<u16>, mask: &Plane<u8>) -> (r: Vec<(u32, u32, u16)>)
    ensures
        r@.to_multiset() == hot_pixels(img@, mask@, paired(img@, mask@)).to_multiset(),
        ascending_by_value(r@),
{
    let ni = img.cell_count();
    let nm = mask.cell_count();
    let n = if ni < nm {
        ni
    } else {
        nm
    };
    let w = img.width();
    let mut choices: Vec<(u32, u32, u16)> = Vec::new();
    let mut k: usize = 0;
    while k < n
        invariant
            k <= n,
            n == paired(img@, mask@),
            n <= img@.cells.len(),
            n <= mask@.cells.len(),
            w == img@.width,
            img@.wf(),
            choices@ == hot_pixels(img@, mask@, k as nat),
        decreases n - k,
    {
        if mask.cell(k) > HOT_ABOVE {
            proof {
                lemma_row_of(k as int, img@.width, img@.height);
            }
            let x = (k % w as usize) as u32;
            let y = (k / w as usize) as u32;
            choices.push((x, y, img.cell(k)));
        }
        k = k + 1;
    }
    sort_by_value(&mut choices);
    choices
}

/// The hot pixel of least score, if any is hot.
pub fn min_pixel_with_mask(img: &Plane<u16>, mask: &Plane<u8>) -> (r: Option<(u32, u32, u16)>)
    ensures
        ({
            let hot = hot_pixels(img@, mask@, paired(img@, mask@));
            &&& r is None <==> hot.len() == 0
            &&& r matches Some(p) ==> hot.contains(p) && forall|i: int|
                0 <= i < hot.len() ==> p.2 <= #[trigger] hot[i].2
        }),
{
    let choices = sort_pixels_with_mask(img, mask);
    let ghost hot = hot_pixels(img@, mask@, paired(img@, mask@));
    proof {
        broadcast use vstd::seq_lib::group_to_multiset_ensures;

        assert(choices@.to_multiset().len() == choices@.len());
        assert(hot.to_multiset().len() == hot.len());
    }
    if choices.len() == 0 {
        None
    } else {
        let p = choices[0];
        proof {
            broadcast use vstd::seq_lib::group_to_multiset_ensures;

            assert(choices@.contains(p));
            assert(hot.to_multiset().count(p) > 0);
            assert forall|i: int| 0 <= i < hot.len() implies p.2 <= #[trigger] hot[i].2 by {
                let q = hot[i];
                assert(hot.contains(q));
                assert(choices@.to_multiset().count(q) > 0);
                assert(choices@.contains(q));
                let j = choose|j: int| 0 <= j < choices@.len() && choices@[j] == q;
                assert(choices@[0].2 <= choices@[j].2);
            }
        }
        Some(p)
    }
}

/// The first pixel, in row-major order, of least value, as (x, y, value).
pub fn min_pixel(img: &Plane<u16>) -> (r: (u32, u32, u16))
    requires
        img@.cells.len() > 0,
    ensures
        exists|k: int|
            0 <= k < img@.cells.len() && r == ((k % (img@.width as int)) as u32, (k / (
            img@.width as int)) as u32, img@.cells[k]) && (forall|j: int|
                0 <= j < img@.cells.len() ==> img@.cells[k] <= #[trigger] img@.cells[j]) && (
            forall|j: int| 0 <= j < k ==> img@.cells[k] < #[trigger] img@.cells[j]),
{
    let n = img.cell_count();
    let w = img.width();
    let mut best: usize = 0;
    let mut k: usize = 1;
    while k < n
        invariant
            1 <= k <= n,
            n == img@.cells.len(),
            best < k,
            forall|j: int| 0 <= j < k ==> img@.cells[best as int] <= #[trigger] img@.cells[j],
            forall|j: int| 0 <= j < best ==> img@.cells[best as int] < #[trigger] img@.cells[j],
        decreases n - k,
    {
        if img.cell(k) < img.cell(best) {
            best = k;
        }
        k = k + 1;
    }
    proof {
        lemma_row_of(best as int, img@.width, img@.height);
    }
    ((best % w as usize) as u32, (best / w as usize) as u32, img.cell(best))
}

} // verus!
